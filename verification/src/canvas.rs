use vstd::prelude::*;
use vstd::string::*;
use crate::color::Color;
use crate::matrix::{flat, lemma_flat_bound};
use crate::scalar::{ratio, ratio_spec, Real};

verus! {

/// The greatest sample of a picture file.
pub const SCALING_FACTOR: u32 = 255;

/// The length that no line of samples in a picture file reaches.
pub const PPM_LINE_LEN: usize = 70;

/// The character of the digit `d`.
pub open spec fn digit_spec(d: nat) -> char {
    if d == 0 {
        '0'
    } else if d == 1 {
        '1'
    } else if d == 2 {
        '2'
    } else if d == 3 {
        '3'
    } else if d == 4 {
        '4'
    } else if d == 5 {
        '5'
    } else if d == 6 {
        '6'
    } else if d == 7 {
        '7'
    } else if d == 8 {
        '8'
    } else {
        '9'
    }
}

/// The number `n` in decimal digits, without leading zeros.
pub open spec fn decimal_spec(n: nat) -> Seq<char>
    decreases n,
{
    if n < 10 {
        seq![digit_spec(n)]
    } else {
        decimal_spec(n / 10).push(digit_spec(n % 10))
    }
}

/// `x`, or the bound that it lies beyond.
pub open spec fn clamp_spec<T: Real>(x: T, min: T, max: T) -> T {
    if x.lt_spec(min) {
        min
    } else if max.lt_spec(x) {
        max
    } else {
        x
    }
}

/// The sample that stands for the share `x` of a colour: the share by the
/// greatest sample, brought into the range of the samples, plus one half,
/// as a whole number.
pub open spec fn sample_spec<T: Real>(x: T) -> u32 {
    clamp_spec(
        x.mul_spec(T::from_usize_spec(255)),
        T::zero_spec(),
        T::from_usize_spec(255),
    ).add_spec(ratio_spec::<T>(1, 2)).to_u32_spec()
}

/// The samples of the first `n` of `pixels`: red, green and blue of each,
/// pixel after pixel.
pub open spec fn samples_spec<T: Real>(pixels: Seq<Color<T>>, n: nat) -> Seq<u32>
    decreases n,
{
    if n == 0 {
        Seq::empty()
    } else {
        samples_spec(pixels, (n - 1) as nat).push(sample_spec(pixels[n - 1].0)).push(
            sample_spec(pixels[n - 1].1),
        ).push(sample_spec(pixels[n - 1].2))
    }
}

/// The first `n` of `samples` in decimal, and the length of the last line:
/// a sample follows the one before it after a blank, or on a new line
/// where the blank and the sample would bring the line to the line limit.
pub open spec fn wrapped_spec(samples: Seq<u32>, n: nat) -> (Seq<char>, nat)
    decreases n,
{
    if n == 0 {
        (Seq::empty(), 0)
    } else {
        let before = wrapped_spec(samples, (n - 1) as nat);
        let s = decimal_spec(samples[n - 1] as nat);
        if before.0.len() == 0 {
            (s, s.len())
        } else if before.1 + s.len() + 1 >= 70 {
            (before.0 + seq!['\n'] + s, s.len())
        } else {
            (before.0 + seq![' '] + s, before.1 + s.len() + 1)
        }
    }
}

/// The first `n` of `pixels` in decimal, one pixel on each line with a
/// blank between its samples.
pub open spec fn lines_spec<T: Real>(pixels: Seq<Color<T>>, n: nat) -> Seq<char>
    decreases n,
{
    if n == 0 {
        Seq::empty()
    } else {
        lines_spec(pixels, (n - 1) as nat) + decimal_spec(sample_spec(pixels[n - 1].0) as nat)
            + seq![' '] + decimal_spec(sample_spec(pixels[n - 1].1) as nat) + seq![' ']
            + decimal_spec(sample_spec(pixels[n - 1].2) as nat) + seq!['\n']
    }
}

/// The first line of a picture file: the mark of the plain format, the
/// width, the height and the greatest sample.
pub open spec fn header_spec(w: nat, h: nat) -> Seq<char> {
    seq!['P', '3', ' '] + decimal_spec(w) + seq![' '] + decimal_spec(h) + seq![' '] + decimal_spec(
        255,
    )
}

/// The picture file of `pixels`, given row after row, with lines of
/// limited length.
pub open spec fn ppm_spec<T: Real>(w: nat, h: nat, pixels: Seq<Color<T>>) -> Seq<char> {
    header_spec(w, h) + seq!['\n'] + wrapped_spec(
        samples_spec(pixels, pixels.len()),
        3 * pixels.len(),
    ).0 + seq!['\n']
}

/// The picture file of `pixels`, given row after row, with one pixel on
/// each line.
pub open spec fn ppm_long_spec<T: Real>(w: nat, h: nat, pixels: Seq<Color<T>>) -> Seq<char> {
    header_spec(w, h) + seq!['\n'] + lines_spec(pixels, pixels.len()) + seq!['\n']
}

/// A number below ten to the tenth has at most ten digits.
pub proof fn lemma_decimal_len(n: nat)
    ensures
        decimal_spec(n).len() >= 1,
        n < 10_000_000_000 ==> decimal_spec(n).len() <= 10,
{
    reveal_with_fuel(decimal_spec, 11);
}

/// There is a line break among the `limit` characters of `text` that start
/// at `i`.
pub open spec fn breaks_within(text: Seq<char>, i: int, limit: int) -> bool {
    exists|k: int| i <= k < i + limit && k < text.len() && text[k] == '\n'
}

/// No line of `text` has `limit` characters or more: wherever `limit`
/// characters follow each other in `text`, there is a line break among them.
pub open spec fn lines_are_short(text: Seq<char>, limit: int) -> bool {
    forall|i: int| 0 <= i && i + limit <= text.len() ==> #[trigger] breaks_within(text, i, limit)
}

/// No line of the samples in decimal reaches the line limit, and the
/// length that `wrapped_spec` gives is that of the last line.
pub proof fn lemma_wrapped_lines_are_short(samples: Seq<u32>, n: nat)
    requires
        n <= samples.len(),
    ensures
        lines_are_short(wrapped_spec(samples, n).0, 70),
        wrapped_spec(samples, n).1 < 70,
        wrapped_spec(samples, n).1 <= wrapped_spec(samples, n).0.len(),
        wrapped_spec(samples, n).1 < wrapped_spec(samples, n).0.len() ==> wrapped_spec(
            samples,
            n,
        ).0[wrapped_spec(samples, n).0.len() - wrapped_spec(samples, n).1 - 1] == '\n',
    decreases n,
{
    if n > 0 {
        lemma_wrapped_lines_are_short(samples, (n - 1) as nat);
        lemma_decimal_len(samples[n - 1] as nat);
        let before = wrapped_spec(samples, (n - 1) as nat);
        let old = before.0;
        let s = decimal_spec(samples[n - 1] as nat);
        let text = wrapped_spec(samples, n).0;
        if old.len() == 0 {
        } else if before.1 + s.len() + 1 >= 70 {
            assert(text == old + seq!['\n'] + s);
            assert(text[old.len() as int] == '\n');
            assert forall|i: int| 0 <= i && i + 70 <= text.len() implies #[trigger] breaks_within(
                text,
                i,
                70,
            ) by {
                if i + 70 <= old.len() {
                    assert(breaks_within(old, i, 70));
                    let k = choose|k: int| i <= k < i + 70 && k < old.len() && old[k] == '\n';
                    assert(text[k] == old[k]);
                } else {
                    assert(i <= old.len());
                }
            }
        } else {
            assert(text == old + seq![' '] + s);
            assert forall|i: int| 0 <= i && i + 70 <= text.len() implies #[trigger] breaks_within(
                text,
                i,
                70,
            ) by {
                if i + 70 <= old.len() {
                    assert(breaks_within(old, i, 70));
                    let k = choose|k: int| i <= k < i + 70 && k < old.len() && old[k] == '\n';
                    assert(text[k] == old[k]);
                } else {
                    let k = old.len() - before.1 - 1;
                    assert(i <= k);
                    assert(text[k] == old[k]);
                }
            }
            if before.1 < old.len() {
                assert(text[text.len() - wrapped_spec(samples, n).1 - 1] == old[old.len()
                    - before.1 - 1]);
            }
        }
    }
}

fn digit(d: usize) -> (r: &'static str)
    requires
        d < 10,
    ensures
        r@ == seq![digit_spec(d as nat)],
{
    proof {
        reveal_strlit("0");
        reveal_strlit("1");
        reveal_strlit("2");
        reveal_strlit("3");
        reveal_strlit("4");
        reveal_strlit("5");
        reveal_strlit("6");
        reveal_strlit("7");
        reveal_strlit("8");
        reveal_strlit("9");
    }
    let r = if d == 0 {
        "0"
    } else if d == 1 {
        "1"
    } else if d == 2 {
        "2"
    } else if d == 3 {
        "3"
    } else if d == 4 {
        "4"
    } else if d == 5 {
        "5"
    } else if d == 6 {
        "6"
    } else if d == 7 {
        "7"
    } else if d == 8 {
        "8"
    } else {
        "9"
    };
    proof {
        assert(r@ =~= seq![digit_spec(d as nat)]);
    }
    r
}

/// The number `n` in decimal digits.
pub fn decimal(n: usize) -> (r: String)
    ensures
        r@ == decimal_spec(n as nat),
    decreases n,
{
    if n < 10 {
        String::from_str(digit(n))
    } else {
        let mut s = decimal(n / 10);
        s.append(digit(n % 10));
        proof {
            assert(s@ =~= decimal_spec(n as nat));
        }
        s
    }
}

/// The number of decimal digits of `n`.
pub fn decimal_len(n: u32) -> (r: usize)
    ensures
        r == decimal_spec(n as nat).len(),
        1 <= r <= 10,
    decreases n,
{
    proof {
        lemma_decimal_len(n as nat);
    }
    if n < 10 {
        1
    } else {
        proof {
            lemma_decimal_len((n / 10) as nat);
        }
        decimal_len(n / 10) + 1
    }
}

/// `x`, or the bound that it lies beyond.
fn clamp<T: Real>(x: T, min: T, max: T) -> (r: T)
    ensures
        r == clamp_spec(x, min, max),
{
    if x.lt(min) {
        min
    } else if max.lt(x) {
        max
    } else {
        x
    }
}

/// The sample that stands for the share `x` of a colour.
pub fn sample<T: Real>(x: T) -> (r: u32)
    ensures
        r == sample_spec(x),
{
    let scaled = x.mul(T::from_usize(255));
    clamp(scaled, T::zero(), T::from_usize(255)).add(ratio(1, 2)).to_u32()
}

/// The samples in decimal, each after a blank or on a new line, so that no
/// line reaches the line limit.
pub fn wrap(samples: &Vec<u32>) -> (r: String)
    ensures
        r@ == wrapped_spec(samples@, samples@.len()).0,
{
    let mut text = String::new();
    let mut line_len: usize = 0;
    let mut k: usize = 0;
    while k < samples.len()
        invariant
            k <= samples@.len(),
            line_len < 70,
            (text@, line_len as nat) == wrapped_spec(samples@, k as nat),
        decreases samples@.len() - k,
    {
        let s = decimal(samples[k] as usize);
        let len = decimal_len(samples[k]);
        proof {
            reveal_strlit("\n");
            reveal_strlit(" ");
        }
        if text.as_str().is_empty() {
            text.append(s.as_str());
            line_len = len;
            proof {
                assert(text@ =~= s@);
            }
        } else if line_len + len + 1 >= PPM_LINE_LEN {
            text.append("\n");
            text.append(s.as_str());
            line_len = len;
        } else {
            text.append(" ");
            text.append(s.as_str());
            line_len = line_len + len + 1;
        }
        k += 1;
    }
    text
}

fn header(w: usize, h: usize) -> (r: String)
    ensures
        r@ == header_spec(w as nat, h as nat),
{
    proof {
        reveal_strlit("P3 ");
        reveal_strlit(" ");
    }
    let mut text = String::from_str("P3 ");
    text.append(decimal(w).as_str());
    text.append(" ");
    text.append(decimal(h).as_str());
    text.append(" ");
    text.append(decimal(255).as_str());
    proof {
        assert("P3 "@ =~= seq!['P', '3', ' ']);
    }
    text
}

/// A picture: its pixels row after row, its width and its height.
pub struct Canvas<T> {
    pub colors: Vec<Color<T>>,
    pub w: usize,
    pub h: usize,
}

/// Where the pixel of column `x` and row `y` lies among the pixels of a
/// picture of width `w`.
pub open spec fn pixel_index(x: int, y: int, w: int) -> int {
    x + y * w
}

impl<T: Real> Canvas<T> {
    /// There are as many pixels as the width and the height ask for.
    pub open spec fn wf(&self) -> bool {
        self.colors@.len() == self.w * self.h
    }

    /// The black picture of `w` by `h` pixels.
    pub fn new(w: usize, h: usize) -> (r: Self)
        requires
            w * h <= usize::MAX,
        ensures
            r.w == w,
            r.h == h,
            r.wf(),
            forall|k: int| 0 <= k < r.colors@.len() ==> r.colors@[k] == Color::<T>::black(),
    {
        let n = w * h;
        let mut colors: Vec<Color<T>> = Vec::with_capacity(n);
        let mut k: usize = 0;
        while k < n
            invariant
                k <= n,
                colors@.len() == k,
                forall|q: int| 0 <= q < k ==> colors@[q] == Color::<T>::black(),
            decreases n - k,
        {
            colors.push(Color::new(T::zero(), T::zero(), T::zero()));
            k += 1;
        }
        Canvas { colors, w, h }
    }

    /// The picture of `w` by `h` pixels whose pixels the calls
    /// `f(column, row)` return.
    pub fn new_fn<F>(w: usize, h: usize, f: F) -> (r: Self) where F: Fn(usize, usize) -> Color<T>
        requires
            w * h <= usize::MAX,
            forall|x: usize, y: usize| x < w && y < h ==> call_requires(f, (x, y)),
        ensures
            r.w == w,
            r.h == h,
            r.wf(),
            forall|x: usize, y: usize|
                x < w && y < h ==> call_ensures(
                    f,
                    (x, y),
                    #[trigger] r.colors@[pixel_index(x as int, y as int, w as int)],
                ),
    {
        let mut colors: Vec<Color<T>> = Vec::with_capacity(w * h);
        let mut y: usize = 0;
        while y < h
            invariant
                y <= h,
                w * h <= usize::MAX,
                forall|x: usize, y: usize| x < w && y < h ==> call_requires(f, (x, y)),
                colors@.len() == flat(y as int, 0, w as int),
                forall|c: usize, r: usize|
                    c < w && r < y ==> call_ensures(
                        f,
                        (c, r),
                        #[trigger] colors@[flat(r as int, c as int, w as int)],
                    ),
            decreases h - y,
        {
            let mut x: usize = 0;
            while x < w
                invariant
                    y < h,
                    x <= w,
                    w * h <= usize::MAX,
                    forall|x: usize, y: usize| x < w && y < h ==> call_requires(f, (x, y)),
                    colors@.len() == flat(y as int, x as int, w as int),
                    forall|c: usize, r: usize|
                        (c < w && r < y) || (r == y && c < x) ==> call_ensures(
                            f,
                            (c, r),
                            #[trigger] colors@[flat(r as int, c as int, w as int)],
                        ),
                decreases w - x,
            {
                let color = f(x, y);
                proof {
                    assert forall|c: usize, r: usize|
                        (c < w && r < y) || (r == y && c < x) implies flat(
                        r as int,
                        c as int,
                        w as int,
                    ) < colors@.len() by {
                        if r < y {
                            lemma_flat_bound(r as int, c as int, w as int, y as int);
                            assert(w * y <= y * w + x) by (nonlinear_arith)
                                requires
                                    0 <= x,
                            ;
                        }
                    }
                }
                colors.push(color);
                x += 1;
            }
            proof {
                assert(flat(y as int, w as int, w as int) == flat(y + 1, 0, w as int))
                    by (nonlinear_arith);
            }
            y += 1;
        }
        proof {
            assert(flat(h as int, 0, w as int) == w * h) by (nonlinear_arith);
            assert forall|x: usize, y: usize| x < w && y < h implies call_ensures(
                f,
                (x, y),
                #[trigger] colors@[pixel_index(x as int, y as int, w as int)],
            ) by {
                assert(pixel_index(x as int, y as int, w as int) == flat(
                    y as int,
                    x as int,
                    w as int,
                ));
                assert(call_ensures(f, (x, y), colors@[flat(y as int, x as int, w as int)]));
            }
        }
        Canvas { colors, w, h }
    }

    /// Where the pixel of column `x` and row `y` is kept.
    pub fn get_index(&self, x: usize, y: usize) -> (k: usize)
        requires
            pixel_index(x as int, y as int, self.w as int) <= usize::MAX,
        ensures
            k == pixel_index(x as int, y as int, self.w as int),
    {
        proof {
            assert(0 <= y * self.w) by (nonlinear_arith)
                requires
                    0 <= y,
                    0 <= self.w,
            ;
        }
        x + y * self.w
    }

    /// Sets the pixel of column `x` and row `y` to `color`.
    pub fn write_pixel(&mut self, x: usize, y: usize, color: Color<T>)
        requires
            pixel_index(x as int, y as int, old(self).w as int) < old(self).colors@.len(),
        ensures
            final(self).colors@ == old(self).colors@.update(
                pixel_index(x as int, y as int, old(self).w as int),
                color,
            ),
            final(self).w == old(self).w,
            final(self).h == old(self).h,
    {
        proof {
            assert(self.colors@.len() == self.colors.len());
        }
        let i = self.get_index(x, y);
        self.colors[i] = color;
    }

    /// The pixel of column `x` and row `y`.
    pub fn pixel_at(&self, x: usize, y: usize) -> (r: Color<T>)
        requires
            pixel_index(x as int, y as int, self.w as int) < self.colors@.len(),
        ensures
            r == self.colors@[pixel_index(x as int, y as int, self.w as int)],
    {
        proof {
            assert(self.colors@.len() == self.colors.len());
        }
        self.colors[self.get_index(x, y)]
    }

    /// The samples of all pixels, row after row.
    fn samples(&self) -> (r: Vec<u32>)
        ensures
            r@ == samples_spec(self.colors@, self.colors@.len()),
            r@.len() == 3 * self.colors@.len(),
    {
        let mut out: Vec<u32> = Vec::new();
        let mut k: usize = 0;
        while k < self.colors.len()
            invariant
                k <= self.colors@.len(),
                out@ == samples_spec(self.colors@, k as nat),
                out@.len() == 3 * k,
            decreases self.colors@.len() - k,
        {
            let c = self.colors[k];
            out.push(sample(c.0));
            out.push(sample(c.1));
            out.push(sample(c.2));
            k += 1;
        }
        out
    }

    /// The picture as a plain picture file with lines of limited length.
    pub fn write_ppm(&self) -> (r: String)
        ensures
            r@ == ppm_spec(self.w as nat, self.h as nat, self.colors@),
    {
        proof {
            reveal_strlit("\n");
        }
        let mut text = header(self.w, self.h);
        text.append("\n");
        text.append(wrap(&self.samples()).as_str());
        text.append("\n");
        text
    }

    /// The picture as a plain picture file with one pixel on each line.
    pub fn write_ppm_long(&self) -> (r: String)
        ensures
            r@ == ppm_long_spec(self.w as nat, self.h as nat, self.colors@),
    {
        proof {
            reveal_strlit("\n");
            reveal_strlit(" ");
        }
        let mut text = header(self.w, self.h);
        text.append("\n");
        let ghost head = text@;
        let mut k: usize = 0;
        while k < self.colors.len()
            invariant
                k <= self.colors@.len(),
                "\n"@ == seq!['\n'],
                " "@ == seq![' '],
                text@ == head + lines_spec(self.colors@, k as nat),
            decreases self.colors@.len() - k,
        {
            let c = self.colors[k];
            let ghost before = text@;
            text.append(decimal(sample(c.0) as usize).as_str());
            text.append(" ");
            text.append(decimal(sample(c.1) as usize).as_str());
            text.append(" ");
            text.append(decimal(sample(c.2) as usize).as_str());
            text.append("\n");
            proof {
                assert(text@ =~= head + lines_spec(self.colors@, (k + 1) as nat));
            }
            k += 1;
        }
        text.append("\n");
        text
    }

    /// The plain picture file, with lines of limited length, of the picture
    /// of `w` by `h` pixels whose pixels the calls `f(column, row)` return.
    pub fn write_ppm_fn<F>(w: usize, h: usize, f: F) -> (r: String) where
        F: Fn(usize, usize) -> Color<T>,

        requires
            w * h <= usize::MAX,
            forall|x: usize, y: usize| x < w && y < h ==> call_requires(f, (x, y)),
        ensures
            exists|pixels: Seq<Color<T>>|
                {
                    &&& pixels.len() == w * h
                    &&& forall|x: usize, y: usize|
                        x < w && y < h ==> call_ensures(
                            f,
                            (x, y),
                            #[trigger] pixels[pixel_index(x as int, y as int, w as int)],
                        )
                    &&& r@ == ppm_spec(w as nat, h as nat, pixels)
                },
    {
        let canvas = Canvas::new_fn(w, h, f);
        canvas.write_ppm()
    }

    /// The plain picture file, with one pixel on each line, of the picture
    /// of `w` by `h` pixels whose pixels the calls `f(column, row)` return.
    pub fn write_ppm_fn_long<F>(w: usize, h: usize, f: F) -> (r: String) where
        F: Fn(usize, usize) -> Color<T>,

        requires
            w * h <= usize::MAX,
            forall|x: usize, y: usize| x < w && y < h ==> call_requires(f, (x, y)),
        ensures
            exists|pixels: Seq<Color<T>>|
                {
                    &&& pixels.len() == w * h
                    &&& forall|x: usize, y: usize|
                        x < w && y < h ==> call_ensures(
                            f,
                            (x, y),
                            #[trigger] pixels[pixel_index(x as int, y as int, w as int)],
                        )
                    &&& r@ == ppm_long_spec(w as nat, h as nat, pixels)
                },
    {
        let canvas = Canvas::new_fn(w, h, f);
        canvas.write_ppm_long()
    }
}

} // verus!
