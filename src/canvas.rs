use vstd::prelude::*;
use vstd::string::*;

use crate::matrix::is_grid;
use crate::scalar::Scalar;
use crate::tuple::Color;

verus! {

/// Longest line, in characters, of the serialized image body.
pub const LINE_LIMIT: usize = 70;

/// A grid of colours, `height` rows of `width` pixels; (0, 0) is the top left.
pub struct Canvas<T> {
    pub width: usize,
    pub height: usize,
    pub pixels: Vec<Vec<Color<T>>>,
}

impl<T> View for Canvas<T> {
    type V = Seq<Seq<Color<T>>>;

    open spec fn view(&self) -> Seq<Seq<Color<T>>> {
        self.pixels@.map_values(|r: Vec<Color<T>>| r@)
    }
}

pub open spec fn digit_chars() -> Seq<char> {
    seq!['0', '1', '2', '3', '4', '5', '6', '7', '8', '9']
}

/// The decimal digits of `n`, most significant first, without leading zeros.
pub open spec fn decimal(n: nat) -> Seq<char>
    decreases n,
{
    if n < 10 {
        seq![digit_chars()[n as int]]
    } else {
        decimal(n / 10).push(digit_chars()[(n % 10) as int])
    }
}

/// The three channel tokens of one pixel.
pub open spec fn pixel_tokens<T: Scalar>(c: Color<T>) -> Seq<Seq<char>> {
    let (r, g, b) = c.spec_ppm();
    seq![decimal(r as nat), decimal(g as nat), decimal(b as nat)]
}

/// The channel tokens of a row of pixels, left to right.
pub open spec fn row_tokens<T: Scalar>(row: Seq<Color<T>>) -> Seq<Seq<char>>
    decreases row.len(),
{
    if row.len() == 0 {
        seq![]
    } else {
        row_tokens(row.drop_last()) + pixel_tokens(row.last())
    }
}

/// Whether `t` can join `line` (after a space, unless `line` is empty)
/// without the line exceeding the limit.
pub open spec fn fits(line: Seq<char>, t: Seq<char>) -> bool {
    if line.len() == 0 {
        t.len() <= LINE_LIMIT
    } else {
        line.len() + 1 + t.len() <= LINE_LIMIT
    }
}

/// One step of line wrapping on (text emitted so far, current line): the
/// token joins the current line if it fits; otherwise the line is emitted
/// with a line break and the token starts the next one.
pub open spec fn wrap_step(acc: (Seq<char>, Seq<char>), t: Seq<char>) -> (Seq<char>, Seq<char>) {
    if fits(acc.1, t) {
        (acc.0, if acc.1.len() == 0 { t } else { acc.1 + seq![' '] + t })
    } else {
        (acc.0 + acc.1 + seq!['\n'], t)
    }
}

/// Line wrapping applied to `ts` in order, from nothing emitted and an empty
/// line.
pub open spec fn wrap_tokens(ts: Seq<Seq<char>>) -> (Seq<char>, Seq<char>)
    decreases ts.len(),
{
    if ts.len() == 0 {
        (seq![], seq![])
    } else {
        wrap_step(wrap_tokens(ts.drop_last()), ts.last())
    }
}

/// The body lines of one canvas row; the row always ends with a line break.
pub open spec fn row_text<T: Scalar>(row: Seq<Color<T>>) -> Seq<char> {
    let (out, line) = wrap_tokens(row_tokens(row));
    out + line + seq!['\n']
}

/// The body lines of the given rows, top to bottom.
pub open spec fn body_text<T: Scalar>(rows: Seq<Seq<Color<T>>>) -> Seq<char>
    decreases rows.len(),
{
    if rows.len() == 0 {
        seq![]
    } else {
        body_text(rows.drop_last()) + row_text(rows.last())
    }
}

/// The plain-format tag, the width and height, and the largest channel value,
/// each on a line.
pub open spec fn header_text(width: nat, height: nat) -> Seq<char> {
    seq!['P', '3', '\n'] + decimal(width) + seq![' '] + decimal(height) + seq!['\n', '2', '5', '5', '\n']
}

/// The whole image in plain PPM format.
pub open spec fn ppm_text<T: Scalar>(width: nat, height: nat, rows: Seq<Seq<Color<T>>>) -> Seq<char> {
    header_text(width, height) + body_text(rows)
}

proof fn lemma_decimal_len(n: nat)
    ensures
        decimal(n).len() <= n + 1,
        n < 10 ==> decimal(n).len() == 1,
        n < 100 ==> decimal(n).len() <= 2,
        n < 1000 ==> decimal(n).len() <= 3,
    decreases n,
{
    if n >= 10 {
        lemma_decimal_len(n / 10);
    }
}

/// The length of the line that position `j` of `s` ends: how many characters
/// stand between the last line break before `j` (or the start) and `j`.
pub open spec fn line_end_len(s: Seq<char>, j: int) -> nat
    decreases j,
{
    if j <= 0 || j > s.len() || s[j - 1] == '\n' {
        0
    } else {
        line_end_len(s, j - 1) + 1
    }
}

/// No line of `s` has more than `limit` characters.
pub open spec fn lines_within(s: Seq<char>, limit: nat) -> bool {
    forall|j: int| 0 <= j <= s.len() ==> #[trigger] line_end_len(s, j) <= limit
}

/// `s` is empty or ends with a line break.
pub open spec fn ends_line(s: Seq<char>) -> bool {
    s.len() == 0 || s.last() == '\n'
}

pub open spec fn no_break(s: Seq<char>) -> bool {
    forall|k: int| 0 <= k < s.len() ==> #[trigger] s[k] != '\n'
}

proof fn lemma_line_end_prefix(a: Seq<char>, b: Seq<char>, j: int)
    requires
        0 <= j <= a.len(),
    ensures
        line_end_len(a + b, j) == line_end_len(a, j),
    decreases j,
{
    if j > 0 {
        lemma_line_end_prefix(a, b, j - 1);
    }
}

proof fn lemma_line_end_after(a: Seq<char>, b: Seq<char>, j: int)
    requires
        ends_line(a),
        0 <= j <= b.len(),
    ensures
        line_end_len(a + b, a.len() + j) == line_end_len(b, j),
    decreases j,
{
    if j > 0 {
        lemma_line_end_after(a, b, j - 1);
        assert((a + b)[a.len() + j - 1] == b[j - 1]);
    } else {
        lemma_line_end_prefix(a, b, a.len() as int);
    }
}

proof fn lemma_line_end_unbroken(l: Seq<char>, j: int)
    requires
        no_break(l),
        0 <= j <= l.len(),
    ensures
        line_end_len(l, j) == j,
    decreases j,
{
    if j > 0 {
        lemma_line_end_unbroken(l, j - 1);
    }
}

/// Appending two pieces whose lines fit, the first ending a line, keeps all
/// lines within the limit.
proof fn lemma_append_lines(a: Seq<char>, b: Seq<char>, limit: nat)
    requires
        ends_line(a),
        lines_within(a, limit),
        lines_within(b, limit),
    ensures
        lines_within(a + b, limit),
        ends_line(b) ==> ends_line(a + b),
{
    assert forall|j: int| 0 <= j <= (a + b).len() implies #[trigger] line_end_len(a + b, j) <= limit by {
        if j <= a.len() {
            lemma_line_end_prefix(a, b, j);
        } else {
            lemma_line_end_after(a, b, j - a.len());
        }
    }
    if b.len() > 0 {
        assert((a + b).last() == b.last());
    }
}

/// A line of at most `limit` characters, with its line break, fits.
proof fn lemma_one_line(l: Seq<char>, limit: nat)
    requires
        no_break(l),
        l.len() <= limit,
    ensures
        lines_within(l + seq!['\n'], limit),
        ends_line(l + seq!['\n']),
{
    let s = l + seq!['\n'];
    assert forall|j: int| 0 <= j <= s.len() implies #[trigger] line_end_len(s, j) <= limit by {
        if j <= l.len() {
            lemma_line_end_prefix(l, seq!['\n'], j);
            lemma_line_end_unbroken(l, j);
        } else {
            assert(s[j - 1] == '\n');
        }
    }
}

proof fn lemma_decimal_digits(n: nat)
    ensures
        no_break(decimal(n)),
    decreases n,
{
    if n >= 10 {
        lemma_decimal_digits(n / 10);
        let d = decimal(n / 10);
        assert(decimal(n) == d.push(digit_chars()[(n % 10) as int]));
        assert forall|k: int| 0 <= k < decimal(n).len() implies #[trigger] decimal(n)[k] != '\n' by {
            if k < d.len() {
                assert(decimal(n)[k] == d[k]);
            }
        }
    }
}

/// A channel token: at most three digits.
pub open spec fn short_token(t: Seq<char>) -> bool {
    t.len() <= 3 && no_break(t)
}

proof fn lemma_row_tokens_short<T: Scalar>(row: Seq<Color<T>>)
    ensures
        forall|i: int| 0 <= i < row_tokens(row).len() ==> short_token(#[trigger] row_tokens(row)[i]),
    decreases row.len(),
{
    if row.len() > 0 {
        lemma_row_tokens_short(row.drop_last());
        let (r, g, b) = row.last().spec_ppm();
        lemma_decimal_len(r as nat);
        lemma_decimal_len(g as nat);
        lemma_decimal_len(b as nat);
        lemma_decimal_digits(r as nat);
        lemma_decimal_digits(g as nat);
        lemma_decimal_digits(b as nat);
        let prev = row_tokens(row.drop_last());
        let ts = row_tokens(row);
        assert forall|i: int| 0 <= i < ts.len() implies short_token(#[trigger] ts[i]) by {
            if i < prev.len() {
                assert(ts[i] == prev[i]);
            } else {
                assert(ts[i] == pixel_tokens(row.last())[i - prev.len()]);
            }
        }
    }
}

proof fn lemma_wrap_tokens_lines(ts: Seq<Seq<char>>)
    requires
        forall|i: int| 0 <= i < ts.len() ==> short_token(#[trigger] ts[i]),
    ensures
        ends_line(wrap_tokens(ts).0),
        lines_within(wrap_tokens(ts).0, LINE_LIMIT as nat),
        no_break(wrap_tokens(ts).1),
        wrap_tokens(ts).1.len() <= LINE_LIMIT,
    decreases ts.len(),
{
    if ts.len() > 0 {
        let prev = ts.drop_last();
        assert forall|i: int| 0 <= i < prev.len() implies short_token(#[trigger] prev[i]) by {
            assert(prev[i] == ts[i]);
        }
        lemma_wrap_tokens_lines(prev);
        let (out, line) = wrap_tokens(prev);
        let t = ts.last();
        assert(short_token(t));
        if fits(line, t) {
            if line.len() > 0 {
                let joined = line + seq![' '] + t;
                assert forall|k: int| 0 <= k < joined.len() implies #[trigger] joined[k] != '\n' by {
                    if k < line.len() {
                        assert(joined[k] == line[k]);
                    } else if k > line.len() {
                        assert(joined[k] == t[k - line.len() - 1]);
                    }
                }
            }
        } else {
            lemma_one_line(line, LINE_LIMIT as nat);
            lemma_append_lines(out, line + seq!['\n'], LINE_LIMIT as nat);
            assert(out + line + seq!['\n'] =~= out + (line + seq!['\n']));
        }
    }
}

/// Every line of the serialized image body has at most 70 characters, and
/// the body ends with a line break.
pub proof fn lemma_body_lines_within<T: Scalar>(rows: Seq<Seq<Color<T>>>)
    ensures
        lines_within(body_text(rows), LINE_LIMIT as nat),
        ends_line(body_text(rows)),
    decreases rows.len(),
{
    if rows.len() > 0 {
        lemma_body_lines_within(rows.drop_last());
        let row = rows.last();
        lemma_row_tokens_short(row);
        lemma_wrap_tokens_lines(row_tokens(row));
        let (out, line) = wrap_tokens(row_tokens(row));
        lemma_one_line(line, LINE_LIMIT as nat);
        lemma_append_lines(out, line + seq!['\n'], LINE_LIMIT as nat);
        assert(row_text(row) =~= out + (line + seq!['\n']));
        lemma_append_lines(body_text(rows.drop_last()), row_text(row), LINE_LIMIT as nat);
    }
}

/// The single digit `d` as a string.
fn digit_str(d: usize) -> (r: &'static str)
    requires
        d < 10,
    ensures
        r@ == seq![digit_chars()[d as int]],
{
    proof {
        reveal_strlit("0");
        reveal_strlit("1");
        reveal_strlit("2");
        reveal_strlit("3");
        reveal_strlit("4");
        reveal_strlit("5");
        reveal_strlit("6");
        reveal_strlit("7");
        reveal_strlit("8");
        reveal_strlit("9");
    }
    let r = match d {
        0 => "0",
        1 => "1",
        2 => "2",
        3 => "3",
        4 => "4",
        5 => "5",
        6 => "6",
        7 => "7",
        8 => "8",
        _ => "9",
    };
    assert(r@ =~= seq![digit_chars()[d as int]]);
    r
}

/// Appends the decimal digits of `n` to `s`; returns how many were appended.
fn append_decimal(s: &mut String, n: usize) -> (k: usize)
    ensures
        final(s)@ == old(s)@ + decimal(n as nat),
        k == decimal(n as nat).len(),
    decreases n,
{
    proof {
        lemma_decimal_len(n as nat);
    }
    if n < 10 {
        s.append(digit_str(n));
        1
    } else {
        proof {
            lemma_decimal_len((n / 10) as nat);
        }
        let k = append_decimal(s, n / 10);
        s.append(digit_str(n % 10));
        assert(final(s)@ =~= old(s)@ + decimal(n as nat));
        k + 1
    }
}



proof fn lemma_row_tokens_step<T: Scalar>(row: Seq<Color<T>>, x: int)
    requires
        0 <= x < row.len(),
    ensures
        row_tokens(row.take(x + 1)) == row_tokens(row.take(x)) + pixel_tokens(row[x]),
{
    let next = row.take(x + 1);
    assert(next.drop_last() =~= row.take(x));
}

proof fn lemma_wrap_three(ts: Seq<Seq<char>>, a: Seq<char>, b: Seq<char>, c: Seq<char>)
    ensures
        wrap_tokens(ts + seq![a, b, c]) == wrap_step(wrap_step(wrap_step(wrap_tokens(ts), a), b), c),
{
    let t3 = ts + seq![a, b, c];
    let t2 = ts + seq![a, b];
    let t1 = ts + seq![a];
    assert(t3.drop_last() =~= t2);
    assert(t2.drop_last() =~= t1);
    assert(t1.drop_last() =~= ts);
    assert(t3.last() == c);
    assert(t2.last() == b);
    assert(t1.last() == a);
    assert(wrap_tokens(t1) == wrap_step(wrap_tokens(ts), a));
    assert(wrap_tokens(t2) == wrap_step(wrap_tokens(t1), b));
    assert(wrap_tokens(t3) == wrap_step(wrap_tokens(t2), c));
}

proof fn lemma_body_step<T: Scalar>(rows: Seq<Seq<Color<T>>>, y: int)
    requires
        0 <= y < rows.len(),
    ensures
        body_text(rows.take(y + 1)) == body_text(rows.take(y)) + row_text(rows[y]),
{
    let next = rows.take(y + 1);
    assert(next.drop_last() =~= rows.take(y));
}

/// Feeds one channel token through line wrapping: `result` holds the text
/// emitted so far and `line` the current line, of length `line_len`.
fn emit_token(result: &mut String, line: &mut String, line_len: &mut usize, v: usize)
    requires
        v <= 255,
        *old(line_len) == old(line)@.len(),
        *old(line_len) <= LINE_LIMIT,
    ensures
        (final(result)@, final(line)@) == wrap_step(
            (old(result)@, old(line)@),
            decimal(v as nat),
        ),
        *final(line_len) == final(line)@.len(),
        *final(line_len) <= LINE_LIMIT,
{
    proof {
        lemma_decimal_len(v as nat);
    }
    let mut token = String::new();
    let k = append_decimal(&mut token, v);
    assert(token@ =~= decimal(v as nat));
    let fits_now = if *line_len == 0 {
        k <= LINE_LIMIT
    } else {
        *line_len + 1 + k <= LINE_LIMIT
    };
    proof {
        reveal_strlit(" ");
        reveal_strlit("\n");
    }
    if fits_now {
        if *line_len > 0 {
            line.append(" ");
            *line_len = *line_len + 1;
        }
        line.append(token.as_str());
        *line_len = *line_len + k;
    } else {
        result.append(line.as_str());
        result.append("\n");
        *line = token;
        *line_len = k;
    }
}

impl<T: Scalar> Canvas<T> {
    /// `height` rows of `width` pixels each.
    pub open spec fn wf(&self) -> bool {
        is_grid(self@, self.height as nat, self.width as nat)
    }

    /// A `width` x `height` canvas with every pixel black.
    pub fn new(width: usize, height: usize) -> (r: Self)
        ensures
            r.wf(),
            r.width == width,
            r.height == height,
            forall|y: int, x: int|
                0 <= y < height && 0 <= x < width ==> #[trigger] r@[y][x] == Color::<T>::spec_new(
                    T::spec_zero(),
                    T::spec_zero(),
                    T::spec_zero(),
                ),
    {
        let black = Color::<T>::black();
        let mut pixels: Vec<Vec<Color<T>>> = Vec::new();
        let mut y: usize = 0;
        while y < height
            invariant
                y <= height,
                pixels@.len() == y,
                forall|k: int| 0 <= k < y ==> #[trigger] pixels@[k]@ == Seq::new(width as nat, |x: int| black),
            decreases height - y,
        {
            let mut row: Vec<Color<T>> = Vec::new();
            let mut x: usize = 0;
            while x < width
                invariant
                    x <= width,
                    row@ == Seq::new(x as nat, |c: int| black),
                decreases width - x,
            {
                row.push(black);
                x = x + 1;
                assert(row@ =~= Seq::new(x as nat, |c: int| black));
            }
            pixels.push(row);
            y = y + 1;
        }
        Canvas { width, height, pixels }
    }

    /// Sets the pixel at column `x`, row `y`, which must lie on the canvas.
    pub fn write_pixel(&mut self, x: usize, y: usize, color: Color<T>)
        requires
            old(self).wf(),
            x < old(self).width,
            y < old(self).height,
        ensures
            final(self).wf(),
            final(self).width == old(self).width,
            final(self).height == old(self).height,
            final(self)@ == old(self)@.update(y as int, old(self)@[y as int].update(x as int, color)),
    {
        assert(self.pixels@[y as int]@ == self@[y as int]);
        self.pixels[y].set(x, color);
        assert(self@ =~= old(self)@.update(y as int, old(self)@[y as int].update(x as int, color)));
    }

    /// The pixel at column `x`, row `y`, which must lie on the canvas.
    pub fn pixel_at(&self, x: usize, y: usize) -> (r: Color<T>)
        requires
            self.wf(),
            x < self.width,
            y < self.height,
        ensures
            r == self@[y as int][x as int],
    {
        assert(self.pixels@[y as int]@ == self@[y as int]);
        self.pixels[y][x]
    }

    /// The canvas as a plain PPM image: the header, then for each row its
    /// channel values wrapped into lines of at most 70 characters.
    pub fn to_ppm(&self) -> (r: String)
        requires
            self.wf(),
        ensures
            r@ == ppm_text(self.width as nat, self.height as nat, self@),
    {
        let mut result = String::new();
        proof {
            reveal_strlit("P3\n");
            reveal_strlit(" ");
            reveal_strlit("\n255\n");
            reveal_strlit("\n");
        }
        result.append("P3\n");
        append_decimal(&mut result, self.width);
        result.append(" ");
        append_decimal(&mut result, self.height);
        result.append("\n255\n");
        assert(result@ =~= header_text(self.width as nat, self.height as nat));
        let mut y: usize = 0;
        while y < self.height
            invariant
                self.wf(),
                y <= self.height,
                result@ == header_text(self.width as nat, self.height as nat) + body_text(
                    self@.take(y as int),
                ),
            decreases self.height - y,
        {
            let ghost row = self@[y as int];
            let mut out = String::new();
            let mut line = String::new();
            let mut line_len: usize = 0;
            let mut x: usize = 0;
            while x < self.width
                invariant
                    self.wf(),
                    y < self.height,
                    row == self@[y as int],
                    x <= self.width,
                    line_len == line@.len(),
                    line_len <= LINE_LIMIT,
                    out@ == wrap_tokens(row_tokens(row.take(x as int))).0,
                    line@ == wrap_tokens(row_tokens(row.take(x as int))).1,
                decreases self.width - x,
            {
                let pixel = self.pixel_at(x, y);
                let (r, g, b) = pixel.ppm_str();
                emit_token(&mut out, &mut line, &mut line_len, r);
                emit_token(&mut out, &mut line, &mut line_len, g);
                emit_token(&mut out, &mut line, &mut line_len, b);
                proof {
                    lemma_row_tokens_step(row, x as int);
                    let ts = row_tokens(row.take(x as int));
                    assert(pixel_tokens(pixel) =~= seq![
                        decimal(r as nat),
                        decimal(g as nat),
                        decimal(b as nat),
                    ]);
                    lemma_wrap_three(ts, decimal(r as nat), decimal(g as nat), decimal(b as nat));
                }
                x = x + 1;
            }
            proof {
                reveal_strlit("\n");
            }
            out.append(line.as_str());
            out.append("\n");
            result.append(out.as_str());
            proof {
                assert(row.take(self.width as int) =~= row);
                lemma_body_step(self@, y as int);
                assert(result@ =~= header_text(self.width as nat, self.height as nat) + body_text(
                    self@.take(y as int + 1),
                ));
            }
            y = y + 1;
        }
        assert(self@.take(self.height as int) =~= self@);
        result
    }
}

} // verus!
