use vstd::prelude::*;
use crate::image::{Image, Rgb};

verus! {

/// A byte that separates words: space, line feed, tab or carriage return.
pub open spec fn is_space(b: u8) -> bool {
    b == 32 || b == 10 || b == 9 || b == 13
}

/// An ASCII decimal digit.
pub open spec fn is_digit(b: u8) -> bool {
    48 <= b <= 57
}

/// The decimal digits of `n`, without leading zeros.
pub open spec fn dec(n: nat) -> Seq<u8>
    decreases n,
{
    if n < 10 {
        seq![(48 + n) as u8]
    } else {
        dec(n / 10).push((48 + n % 10) as u8)
    }
}

pub open spec fn space() -> Seq<u8> {
    seq![32u8]
}

pub open spec fn newline() -> Seq<u8> {
    seq![10u8]
}

/// The magic number of a plain-text PPM file.
pub open spec fn magic() -> Seq<u8> {
    seq![80u8, 51u8]
}

/// The largest channel value, written in the header.
pub open spec fn max_value() -> Seq<u8> {
    seq![50u8, 53u8, 53u8]
}

/// One pixel: its three channels, each followed by a space.
pub open spec fn pixel_text(c: Rgb) -> Seq<u8> {
    dec(c.r as nat) + space() + dec(c.g as nat) + space() + dec(c.b as nat) + space()
}

/// The pixels in order, with a line break after each row of `width`.
pub open spec fn body_text(px: Seq<Rgb>, width: nat) -> Seq<u8>
    decreases px.len(),
{
    if px.len() == 0 {
        seq![]
    } else {
        body_text(px.drop_last(), width) + pixel_text(px.last()) + if px.len() % width == 0 {
            newline()
        } else {
            seq![]
        }
    }
}

/// The plain-text PPM file of an image: the header, then the rows from the top.
pub open spec fn ppm_text(width: nat, height: nat, px: Seq<Rgb>) -> Seq<u8> {
    magic() + newline() + dec(width) + space() + dec(height) + newline() + max_value() + newline()
        + body_text(px, width)
}

/// The words of `s` (maximal runs of non-space bytes), where `cur` is a word
/// already begun before `s`.
pub open spec fn words_from(s: Seq<u8>, cur: Seq<u8>) -> Seq<Seq<u8>>
    decreases s.len(),
{
    if s.len() == 0 {
        if cur.len() == 0 { seq![] } else { seq![cur] }
    } else if is_space(s[0]) {
        (if cur.len() == 0 { seq![] } else { seq![cur] }) + words_from(s.drop_first(), seq![])
    } else {
        words_from(s.drop_first(), cur.push(s[0]))
    }
}

/// The words of `s`.
pub open spec fn words(s: Seq<u8>) -> Seq<Seq<u8>> {
    words_from(s, seq![])
}

/// The value of a run of decimal digits.
pub open spec fn digits_value(t: Seq<u8>) -> nat
    decreases t.len(),
{
    if t.len() == 0 {
        0
    } else {
        digits_value(t.drop_last()) * 10 + (t.last() - 48) as nat
    }
}

/// The number a word spells, where it is a non-empty run of digits whose
/// value fits in an `i32`.
pub open spec fn number(t: Seq<u8>) -> Option<nat> {
    if t.len() > 0 && (forall|i: int| 0 <= i < t.len() ==> is_digit(#[trigger] t[i]))
        && digits_value(t) <= i32::MAX {
        Some(digits_value(t))
    } else {
        None
    }
}

/// The channel value that word `t` spells, where it spells one.
pub open spec fn channel(t: Seq<u8>) -> u8 {
    number(t)->Some_0 as u8
}

/// The three channel words of each pixel, in order.
spec fn channel_words(px: Seq<Rgb>) -> Seq<Seq<u8>> {
    Seq::new(
        3 * px.len(),
        |k: int|
            if k % 3 == 0 {
                dec(px[k / 3].r as nat)
            } else if k % 3 == 1 {
                dec(px[k / 3].g as nat)
            } else {
                dec(px[k / 3].b as nat)
            },
    )
}

/// The image that a sequence of words describes: the magic number, a positive
/// width and height, the maximum value 255, then exactly three channels of at
/// most 255 per pixel.
pub open spec fn decode(w: Seq<Seq<u8>>) -> Option<(nat, nat, Seq<Rgb>)> {
    if w.len() >= 4 && w[0] == magic() && number(w[1]) is Some && number(w[1])->Some_0 > 0
        && number(w[2]) is Some && number(w[2])->Some_0 > 0 && number(w[3]) == Some(255nat)
        && w.len() == 4 + 3 * (number(w[1])->Some_0 * number(w[2])->Some_0) && (forall|k: int|
        4 <= k < w.len() ==> #[trigger] number(w[k]) is Some && number(w[k])->Some_0 <= 255) {
        let width = number(w[1])->Some_0;
        let height = number(w[2])->Some_0;
        Some(
            (
                width,
                height,
                Seq::new(
                    width * height,
                    |i: int|
                        Rgb {
                            r: channel(w[4 + 3 * i]),
                            g: channel(w[4 + 3 * i + 1]),
                            b: channel(w[4 + 3 * i + 2]),
                        },
                ),
            ),
        )
    } else {
        None
    }
}

proof fn lemma_dec_digits(n: nat)
    ensures
        dec(n).len() > 0,
        forall|i: int| 0 <= i < dec(n).len() ==> is_digit(#[trigger] dec(n)[i]),
        digits_value(dec(n)) == n,
    decreases n,
{
    if n >= 10 {
        lemma_dec_digits(n / 10);
        assert(dec(n).drop_last() == dec(n / 10));
        assert(dec(n).last() == (48 + n % 10) as u8);
        assert(digits_value(dec(n)) == digits_value(dec(n / 10)) * 10 + n % 10);
    } else {
        assert(dec(n).drop_last() =~= seq![]);
        assert(digits_value(dec(n)) == digits_value(seq![]) * 10 + n);
    }
}

/// A word followed by one space byte is that one word, joined to any word
/// begun before.
proof fn lemma_words_of_word(w: Seq<u8>, cur: Seq<u8>, sep: u8)
    requires
        forall|i: int| 0 <= i < w.len() ==> !is_space(#[trigger] w[i]),
        cur.len() + w.len() > 0,
        is_space(sep),
    ensures
        words_from(w.push(sep), cur) == seq![cur + w],
    decreases w.len(),
{
    if w.len() == 0 {
        assert(seq![sep].drop_first() =~= seq![]);
        assert(w.push(sep) =~= seq![sep]);
        assert(cur + w =~= cur);
        assert(words_from(seq![sep], cur) == seq![cur] + words_from(seq![], seq![]));
        assert(seq![cur] + seq![] =~= seq![cur]);
    } else {
        assert(w.push(sep)[0] == w[0]);
        assert(w.push(sep).drop_first() =~= w.drop_first().push(sep));
        lemma_words_of_word(w.drop_first(), cur.push(w[0]), sep);
        assert(cur.push(w[0]) + w.drop_first() =~= cur + w);
    }
}

/// Cutting a text after a space splits its words in two.
proof fn lemma_words_concat(a: Seq<u8>, b: Seq<u8>, cur: Seq<u8>)
    requires
        a.len() > 0,
        is_space(a.last()),
    ensures
        words_from(a + b, cur) == words_from(a, cur) + words(b),
    decreases a.len(),
{
    assert((a + b)[0] == a[0]);
    assert((a + b).drop_first() =~= a.drop_first() + b);
    if a.len() == 1 {
        assert(a.drop_first() =~= seq![]);
        assert(a.drop_first() + b =~= b);
        if cur.len() == 0 {
            assert(words_from(a, cur) =~= seq![]);
            assert(words_from(a + b, cur) =~= words(b));
        } else {
            assert(words_from(a + b, cur) =~= seq![cur] + words(b));
            assert(words_from(a, cur) =~= seq![cur]);
        }
    } else if is_space(a[0]) {
        lemma_words_concat(a.drop_first(), b, seq![]);
        let c: Seq<Seq<u8>> = if cur.len() == 0 { seq![] } else { seq![cur] };
        assert(words_from(a + b, cur) == c + words_from(a.drop_first() + b, seq![]));
        assert(words_from(a, cur) == c + words_from(a.drop_first(), seq![]));
        assert(c + (words_from(a.drop_first(), seq![]) + words(b)) =~= (c + words_from(
            a.drop_first(),
            seq![],
        )) + words(b));
    } else {
        lemma_words_concat(a.drop_first(), b, cur.push(a[0]));
    }
}

proof fn lemma_dec_word(n: nat)
    ensures
        words(dec(n) + space()) == seq![dec(n)],
        words(dec(n) + newline()) == seq![dec(n)],
{
    lemma_dec_digits(n);
    lemma_words_of_word(dec(n), seq![], 32u8);
    lemma_words_of_word(dec(n), seq![], 10u8);
    assert(seq![] + dec(n) =~= dec(n));
    assert(dec(n) + space() =~= dec(n).push(32u8));
    assert(dec(n) + newline() =~= dec(n).push(10u8));
}

proof fn lemma_pixel_words(c: Rgb)
    ensures
        words(pixel_text(c)) == seq![dec(c.r as nat), dec(c.g as nat), dec(c.b as nat)],
        pixel_text(c).len() > 0,
        is_space(pixel_text(c).last()),
{
    let (r, g, b) = (dec(c.r as nat), dec(c.g as nat), dec(c.b as nat));
    lemma_dec_word(c.r as nat);
    lemma_dec_word(c.g as nat);
    lemma_dec_word(c.b as nat);
    assert(pixel_text(c) =~= (r + space()) + ((g + space()) + (b + space())));
    lemma_words_concat(r + space(), (g + space()) + (b + space()), seq![]);
    lemma_words_concat(g + space(), b + space(), seq![]);
    assert(seq![r] + (seq![g] + seq![b]) =~= seq![r, g, b]);
}

proof fn lemma_body_words(px: Seq<Rgb>, width: nat)
    requires
        width > 0,
    ensures
        words(body_text(px, width)) == channel_words(px),
        px.len() > 0 ==> body_text(px, width).len() > 0 && is_space(body_text(px, width).last()),
    decreases px.len(),
{
    if px.len() == 0 {
        assert(words(seq![]) == Seq::<Seq<u8>>::empty());
        assert(channel_words(px) =~= seq![]);
    } else {
        let prev = px.drop_last();
        let c = px.last();
        let tail: Seq<u8> = if px.len() % width == 0 { newline() } else { seq![] };
        lemma_body_words(prev, width);
        lemma_pixel_words(c);
        let pt = pixel_text(c) + tail;
        assert(words(pt) == words(pixel_text(c))) by {
            if px.len() % width == 0 {
                lemma_words_concat(pixel_text(c), newline(), seq![]);
                assert(newline().drop_first() =~= seq![]);
                assert(words(newline()) == Seq::<Seq<u8>>::empty() + words(seq![]));
                assert(words(pixel_text(c)) + seq![] =~= words(pixel_text(c)));
            } else {
                assert(pt =~= pixel_text(c));
            }
        }
        assert(pt.len() > 0 && is_space(pt.last()));
        assert(body_text(px, width) == body_text(prev, width) + pt) by {
            assert(body_text(prev, width) + pixel_text(c) + tail =~= body_text(prev, width) + pt);
        }
        if prev.len() == 0 {
            assert(body_text(prev, width) + pt =~= pt);
            assert(words(pt) == channel_words(px)) by {
                assert(channel_words(px) =~= seq![dec(c.r as nat), dec(c.g as nat), dec(c.b as nat)]);
            }
        } else {
            lemma_words_concat(body_text(prev, width), pt, seq![]);
            let cw = channel_words(px);
            let pw = channel_words(prev);
            let n = prev.len() as int;
            assert(cw =~= pw + seq![dec(c.r as nat), dec(c.g as nat), dec(c.b as nat)]) by {
                assert forall|k: int| 0 <= k < 3 * n implies #[trigger] cw[k] == pw[k] by {
                    assert(k / 3 < n);
                }
                assert(cw[3 * n] == dec(c.r as nat));
                assert(cw[3 * n + 1] == dec(c.g as nat));
                assert(cw[3 * n + 2] == dec(c.b as nat));
            }
        }
    }
}

proof fn lemma_number_of_dec(n: nat)
    requires
        n <= i32::MAX,
    ensures
        number(dec(n)) == Some(n),
{
    lemma_dec_digits(n);
}

/// The words of a serialized image: the four header words, then the channels.
proof fn lemma_text_words(width: nat, height: nat, px: Seq<Rgb>)
    requires
        width > 0,
    ensures
        words(ppm_text(width, height, px)) == seq![magic(), dec(width), dec(height), max_value()]
            + channel_words(px),
{
    let body = body_text(px, width);
    let m = magic() + newline();
    let w = dec(width) + space();
    let h = dec(height) + newline();
    let v = max_value() + newline();
    assert(ppm_text(width, height, px) =~= m + (w + (h + (v + body))));
    lemma_words_of_word(magic(), seq![], 10u8);
    lemma_words_of_word(max_value(), seq![], 10u8);
    assert(m =~= magic().push(10u8));
    assert(v =~= max_value().push(10u8));
    assert(seq![] + magic() =~= magic());
    assert(seq![] + max_value() =~= max_value());
    lemma_dec_word(width);
    lemma_dec_word(height);
    lemma_body_words(px, width);
    lemma_words_concat(v, body, seq![]);
    lemma_words_concat(h, v + body, seq![]);
    lemma_words_concat(w, h + (v + body), seq![]);
    lemma_words_concat(m, w + (h + (v + body)), seq![]);
    assert(seq![magic()] + (seq![dec(width)] + (seq![dec(height)] + (seq![max_value()]
        + channel_words(px)))) =~= seq![magic(), dec(width), dec(height), max_value()]
        + channel_words(px));
}

/// Decoding the words of a serialized image gives back its size and pixels.
proof fn lemma_decode_text(width: nat, height: nat, px: Seq<Rgb>)
    requires
        0 < width <= i32::MAX,
        0 < height <= i32::MAX,
        px.len() == width * height,
    ensures
        decode(words(ppm_text(width, height, px))) == Some((width, height, px)),
{
    lemma_text_words(width, height, px);
    let ws = words(ppm_text(width, height, px));
    let cw = channel_words(px);
    lemma_number_of_dec(width);
    lemma_number_of_dec(height);
    assert(max_value() =~= dec(255)) by {
        assert(dec(255) == dec(25).push(53u8));
        assert(dec(25) == dec(2).push(53u8));
    }
    lemma_number_of_dec(255);
    assert(ws[0] == magic());
    assert(ws[1] == dec(width));
    assert(ws[2] == dec(height));
    assert(ws[3] == max_value());
    assert forall|k: int| 4 <= k < ws.len() implies #[trigger] number(ws[k]) is Some
        && number(ws[k])->Some_0 <= 255 by {
        assert(ws[k] == cw[k - 4]);
        let i = (k - 4) / 3;
        lemma_number_of_dec(px[i].r as nat);
        lemma_number_of_dec(px[i].g as nat);
        lemma_number_of_dec(px[i].b as nat);
    }
    let d = decode(ws)->Some_0.2;
    assert(d =~= px) by {
        assert forall|i: int| 0 <= i < px.len() implies #[trigger] d[i] == px[i] by {
            assert(ws[4 + 3 * i] == cw[3 * i]);
            assert(ws[4 + 3 * i + 1] == cw[3 * i + 1]);
            assert(ws[4 + 3 * i + 2] == cw[3 * i + 2]);
            assert((3 * i) / 3 == i);
            assert((3 * i + 1) / 3 == i);
            assert((3 * i + 2) / 3 == i);
            lemma_number_of_dec(px[i].r as nat);
            lemma_number_of_dec(px[i].g as nat);
            lemma_number_of_dec(px[i].b as nat);
        }
    }
}

/// Reading back the PPM text of an image gives the same width, height and
/// pixels: what `parse_ppm` returns on the output of `to_ppm` is the image.
pub proof fn lemma_ppm_round_trip(img: &Image)
    requires
        img.wf(),
    ensures
        decode(words(ppm_text(img.width as nat, img.height as nat, img.pixels@))) == Some(
            (img.width as nat, img.height as nat, img.pixels@),
        ),
{
    lemma_decode_text(img.width as nat, img.height as nat, img.pixels@);
}

/// Appends the decimal digits of `n`.
fn push_dec(out: &mut Vec<u8>, n: u32)
    ensures
        final(out)@ == old(out)@ + dec(n as nat),
    decreases n,
{
    if n >= 10 {
        push_dec(out, n / 10);
    }
    out.push((48 + n % 10) as u8);
    proof {
        if n >= 10 {
            assert(dec(n as nat) == dec((n / 10) as nat).push((48 + n % 10) as u8));
            assert(final(out)@ =~= old(out)@ + dec(n as nat));
        } else {
            assert(final(out)@ =~= old(out)@ + dec(n as nat));
        }
    }
}

/// Appends one pixel's three channels, each followed by a space.
fn push_pixel(out: &mut Vec<u8>, c: Rgb)
    ensures
        final(out)@ == old(out)@ + pixel_text(c),
{
    push_dec(out, c.r as u32);
    out.push(32u8);
    push_dec(out, c.g as u32);
    out.push(32u8);
    push_dec(out, c.b as u32);
    out.push(32u8);
    assert(final(out)@ =~= old(out)@ + pixel_text(c));
}

proof fn lemma_body_step(px: Seq<Rgb>, width: nat, i: int)
    requires
        0 <= i < px.len(),
    ensures
        body_text(px.take(i + 1), width) == body_text(px.take(i), width) + pixel_text(px[i])
            + if (i + 1) % (width as int) == 0 { newline() } else { seq![] },
{
    let t = px.take(i + 1);
    assert(t.drop_last() =~= px.take(i));
    assert(t.last() == px[i]);
}

impl Image {
    /// The image as a plain-text PPM file: the header `P3`, the width and the
    /// height, the maximum value 255, then each row from the top, each pixel as
    /// three decimal channels.
    pub fn to_ppm(&self) -> (out: Vec<u8>)
        requires
            self.wf(),
        ensures
            out@ == ppm_text(self.width as nat, self.height as nat, self.pixels@),
    {
        let mut out: Vec<u8> = Vec::new();
        out.push(80u8);
        out.push(51u8);
        out.push(10u8);
        push_dec(&mut out, self.width as u32);
        out.push(32u8);
        push_dec(&mut out, self.height as u32);
        out.push(10u8);
        out.push(50u8);
        out.push(53u8);
        out.push(53u8);
        out.push(10u8);
        let ghost header = out@;
        assert(header =~= magic() + newline() + dec(self.width as nat) + space() + dec(
            self.height as nat,
        ) + newline() + max_value() + newline());
        let n = self.pixels.len();
        let w = self.width as usize;
        let mut i: usize = 0;
        assert(self.pixels@.take(0) =~= seq![]);
        while i < n
            invariant
                n == self.pixels@.len(),
                w == self.width,
                w > 0,
                i <= n,
                out@ == header + body_text(self.pixels@.take(i as int), w as nat),
            decreases n - i,
        {
            let ghost before = out@;
            push_pixel(&mut out, self.pixels[i]);
            let ghost mid = out@;
            if (i + 1) % w == 0 {
                out.push(10u8);
                assert(out@ =~= mid + newline());
            } else {
                assert(out@ =~= mid + seq![]);
            }
            proof {
                lemma_body_step(self.pixels@, w as nat, i as int);
                assert(out@ =~= header + body_text(self.pixels@.take(i + 1), w as nat));
            }
            i = i + 1;
        }
        assert(self.pixels@.take(n as int) =~= self.pixels@);
        out
    }
}

/// The contents of each word.
pub open spec fn views(ws: Seq<Vec<u8>>) -> Seq<Seq<u8>> {
    ws.map_values(|w: Vec<u8>| w@)
}

proof fn lemma_words_step(s: Seq<u8>, i: int, cur: Seq<u8>)
    requires
        0 <= i < s.len(),
    ensures
        words_from(s.skip(i), cur) == if is_space(s[i]) {
            (if cur.len() == 0 { seq![] } else { seq![cur] }) + words_from(s.skip(i + 1), seq![])
        } else {
            words_from(s.skip(i + 1), cur.push(s[i]))
        },
{
    assert(s.skip(i).drop_first() =~= s.skip(i + 1));
    assert(s.skip(i)[0] == s[i]);
}

/// Splits a text into its words.
pub fn split_words(bytes: &[u8]) -> (ws: Vec<Vec<u8>>)
    ensures
        views(ws@) == words(bytes@),
{
    let mut out: Vec<Vec<u8>> = Vec::new();
    let mut cur: Vec<u8> = Vec::new();
    let mut i: usize = 0;
    assert(bytes@.skip(0) =~= bytes@);
    assert(views(out@) =~= seq![]);
    while i < bytes.len()
        invariant
            i <= bytes@.len(),
            views(out@) + words_from(bytes@.skip(i as int), cur@) == words(bytes@),
        decreases bytes@.len() - i,
    {
        let b = bytes[i];
        proof {
            lemma_words_step(bytes@, i as int, cur@);
        }
        if b == 32 || b == 10 || b == 9 || b == 13 {
            if cur.len() > 0 {
                let ghost before = views(out@);
                let ghost word = cur@;
                out.push(cur);
                cur = Vec::new();
                assert(views(out@) =~= before.push(word));
                assert(before + (seq![word] + words_from(bytes@.skip(i + 1), seq![])) =~= before.push(
                    word,
                ) + words_from(bytes@.skip(i + 1), cur@));
            } else {
                assert(cur@ =~= seq![]);
                assert(seq![] + words_from(bytes@.skip(i + 1), seq![]) =~= words_from(
                    bytes@.skip(i + 1),
                    seq![],
                ));
            }
        } else {
            cur.push(b);
        }
        i = i + 1;
    }
    assert(bytes@.skip(i as int) =~= seq![]);
    if cur.len() > 0 {
        let ghost before = views(out@);
        let ghost word = cur@;
        out.push(cur);
        assert(views(out@) =~= before.push(word));
        assert(before + seq![word] =~= before.push(word));
    } else {
        assert(views(out@) + seq![] =~= views(out@));
    }
    out
}

proof fn lemma_value_grows(t: Seq<u8>, j: int)
    requires
        0 <= j <= t.len(),
    ensures
        digits_value(t.take(j)) <= digits_value(t),
    decreases t.len(),
{
    if j == t.len() {
        assert(t.take(j) =~= t);
    } else {
        lemma_value_grows(t.drop_last(), j);
        assert(t.drop_last().take(j) =~= t.take(j));
    }
}

/// The number that a word spells, if it is a run of digits whose value fits
/// in an `i32`.
pub fn parse_number(t: &Vec<u8>) -> (r: Option<u32>)
    ensures
        match r {
            Some(v) => number(t@) == Some(v as nat),
            None => number(t@) is None,
        },
{
    if t.len() == 0 {
        return None;
    }
    let mut acc: u32 = 0;
    let mut k: usize = 0;
    assert(t@.take(0) =~= seq![]);
    while k < t.len()
        invariant
            k <= t@.len(),
            forall|i: int| 0 <= i < k ==> is_digit(#[trigger] t@[i]),
            acc == digits_value(t@.take(k as int)),
            acc <= i32::MAX,
        decreases t@.len() - k,
    {
        let d = t[k];
        if d < 48 || d > 57 {
            return None;
        }
        assert(t@.take(k + 1).drop_last() =~= t@.take(k as int));
        let next: u64 = (acc as u64) * 10 + ((d - 48) as u64);
        if next > 2147483647 {
            proof {
                lemma_value_grows(t@, k + 1);
            }
            return None;
        }
        acc = next as u32;
        k = k + 1;
    }
    assert(t@.take(k as int) =~= t@);
    Some(acc)
}

proof fn lemma_decode_needs(w: Seq<Seq<u8>>, base: int)
    requires
        4 <= base,
        base + 2 < w.len(),
        decode(w) is Some,
    ensures
        number(w[base]) is Some && number(w[base])->Some_0 <= 255,
        number(w[base + 1]) is Some && number(w[base + 1])->Some_0 <= 255,
        number(w[base + 2]) is Some && number(w[base + 2])->Some_0 <= 255,
{
}

/// Reads a plain-text PPM file: the words `P3`, a positive width and height,
/// the maximum value 255, then three channels of at most 255 per pixel,
/// separated by any run of spaces, tabs and line breaks.
pub fn parse_ppm(bytes: &[u8]) -> (r: Option<Image>)
    ensures
        match decode(words(bytes@)) {
            Some(d) => r is Some && r->Some_0.wf() && r->Some_0.width == d.0 && r->Some_0.height
                == d.1 && r->Some_0.pixels@ == d.2,
            None => r is None,
        },
{
    let ws = split_words(bytes);
    let ghost wv = words(bytes@);
    assert(forall|k: int| 0 <= k < ws@.len() ==> #[trigger] wv[k] == ws@[k]@);
    if ws.len() < 4 {
        return None;
    }
    if !(ws[0].len() == 2 && ws[0][0] == 80u8 && ws[0][1] == 51u8) {
        assert(wv[0] != magic()) by {
            if wv[0] == magic() {
                assert(ws@[0]@ =~= magic());
            }
        }
        return None;
    }
    assert(wv[0] =~= magic());
    let width = match parse_number(&ws[1]) {
        Some(v) => v,
        None => return None,
    };
    let height = match parse_number(&ws[2]) {
        Some(v) => v,
        None => return None,
    };
    let maxv = match parse_number(&ws[3]) {
        Some(v) => v,
        None => return None,
    };
    if width == 0 || height == 0 || maxv != 255 {
        return None;
    }
    assert((width as u128) * (height as u128) <= 0x4000_0000_0000_0000) by (nonlinear_arith)
        requires width <= 0x7fff_ffff, height <= 0x7fff_ffff;
    let count: u128 = (width as u128) * (height as u128);
    if ws.len() as u128 != 4 + 3 * count {
        return None;
    }
    let n = count as usize;
    let mut pixels: Vec<Rgb> = Vec::new();
    let mut i: usize = 0;
    while i < n
        invariant
            n == width * height,
            ws@.len() == 4 + 3 * n,
            ws@.len() <= usize::MAX,
            wv == words(bytes@),
            wv.len() == ws@.len(),
            forall|k: int| 0 <= k < ws@.len() ==> #[trigger] wv[k] == ws@[k]@,
            i <= n,
            pixels@.len() == i,
            forall|k: int| 4 <= k < 4 + 3 * i ==> #[trigger] number(wv[k]) is Some
                && number(wv[k])->Some_0 <= 255,
            forall|j: int| 0 <= j < i ==> #[trigger] pixels@[j] == (Rgb {
                r: channel(wv[4 + 3 * j]),
                g: channel(wv[4 + 3 * j + 1]),
                b: channel(wv[4 + 3 * j + 2]),
            }),
        decreases n - i,
    {
        let base = 4 + 3 * i;
        let r = parse_number(&ws[base]);
        let g = parse_number(&ws[base + 1]);
        let b = parse_number(&ws[base + 2]);
        assert(wv[base as int] == ws@[base as int]@);
        assert(wv[base + 1] == ws@[base + 1]@);
        assert(wv[base + 2] == ws@[base + 2]@);
        if r.is_none() || g.is_none() || b.is_none() {
            assert(!(number(wv[base as int]) is Some && number(wv[base + 1]) is Some
                && number(wv[base + 2]) is Some));
            proof {
                if decode(wv) is Some {
                    lemma_decode_needs(wv, base as int);
                }
            }
            return None;
        }
        let (r, g, b) = (r.unwrap(), g.unwrap(), b.unwrap());
        if r > 255 || g > 255 || b > 255 {
            proof {
                if decode(wv) is Some {
                    lemma_decode_needs(wv, base as int);
                }
            }
            return None;
        }
        pixels.push(Rgb { r: r as u8, g: g as u8, b: b as u8 });
        i = i + 1;
    }
    let img = Image { width: width as i32, height: height as i32, pixels };
    assert(img.pixels@ =~= decode(wv)->Some_0.2);
    Some(img)
}

} // verus!
