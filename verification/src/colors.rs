//! Representative block colors, computed offline from block textures: the
//! average of a texture's visible pixels, and tints for foliage and water.

use vstd::prelude::*;
use crate::text;

verus! {

/// The color channels of the pixel at byte offset `o` of a decoded image
/// with `ch` channels per pixel (4 RGBA, 3 RGB, 2 gray and alpha, else
/// gray), as red, green, blue and alpha.
pub open spec fn pixel_at(b: Seq<u8>, o: int, ch: int) -> (u8, u8, u8, u8) {
    if ch == 4 {
        (b[o], b[o + 1], b[o + 2], b[o + 3])
    } else if ch == 3 {
        (b[o], b[o + 1], b[o + 2], 255u8)
    } else if ch == 2 {
        (b[o], b[o], b[o], b[o + 1])
    } else {
        (b[o], b[o], b[o], 255u8)
    }
}

/// Whether pixel `p` (counted row by row) is sampled: it lies within
/// the buffer and is not (nearly) transparent.
pub open spec fn sampled(b: Seq<u8>, ch: int, p: int) -> bool {
    let o = p * ch;
    o + ch <= b.len() && pixel_at(b, o, ch).3 >= 16
}

/// Sums of the red, green and blue of the sampled pixels among the first
/// `p`, and how many there are.
pub open spec fn sums(b: Seq<u8>, ch: int, p: int) -> (int, int, int, int)
    decreases p,
{
    if p <= 0 {
        (0, 0, 0, 0)
    } else {
        let s = sums(b, ch, p - 1);
        if sampled(b, ch, p - 1) {
            let px = pixel_at(b, (p - 1) * ch, ch);
            (s.0 + px.0, s.1 + px.1, s.2 + px.2, s.3 + 1)
        } else {
            s
        }
    }
}

/// Rows sampled: at most as many as the image is wide (some textures are
/// animated strips of square frames; only the first frame counts).
pub open spec fn sampled_rows(w: int, h: int) -> int {
    let side = if w > 1 { w } else { 1 };
    if h < side { h } else { side }
}

/// The average color of a decoded image: the mean red, green and blue of
/// its sampled pixels (rounded down), or `None` when no pixel is sampled.
pub open spec fn spec_average(b: Seq<u8>, ch: int, w: int, h: int) -> Option<(u32, u32, u32)> {
    let s = sums(b, ch, sampled_rows(w, h) * w);
    if s.3 == 0 {
        None
    } else {
        Some(((s.0 / s.3) as u32, (s.1 / s.3) as u32, (s.2 / s.3) as u32))
    }
}

proof fn lemma_sums_bound(b: Seq<u8>, ch: int, p: int)
    requires
        p >= 0,
    ensures
        0 <= sums(b, ch, p).3 <= p,
        0 <= sums(b, ch, p).0 <= 255 * sums(b, ch, p).3,
        0 <= sums(b, ch, p).1 <= 255 * sums(b, ch, p).3,
        0 <= sums(b, ch, p).2 <= 255 * sums(b, ch, p).3,
    decreases p,
{
    if p > 0 {
        lemma_sums_bound(b, ch, p - 1);
    }
}

proof fn lemma_sums_past_end(b: Seq<u8>, ch: int, p: int)
    requires
        1 <= ch,
        p >= b.len(),
    ensures
        sums(b, ch, p) == sums(b, ch, b.len() as int),
    decreases p,
{
    if p > b.len() {
        assert((p - 1) * ch + ch >= p) by (nonlinear_arith)
            requires
                1 <= ch,
                p >= 1,
        ;
        lemma_sums_past_end(b, ch, p - 1);
    }
}

/// The average color of a decoded image with `ch` channels per pixel,
/// `width` pixels per row and `height` rows (see `spec_average`).
pub fn average_rgb(bytes: &[u8], ch: usize, width: usize, height: usize) -> (r: Option<[u32; 3]>)
    requires
        1 <= ch <= 4,
    ensures
        match spec_average(bytes@, ch as int, width as int, height as int) {
            None => r is None,
            Some(c) => r == Some([c.0, c.1, c.2]),
        },
        r matches Some(c) ==> c[0] <= 255 && c[1] <= 255 && c[2] <= 255,
{
    let side = if width > 1 { width } else { 1 };
    let rows = if height < side { height } else { side };
    let ghost total = rows * width;
    // Pixels that start past the end of the buffer are never sampled.
    let limit: usize = match rows.checked_mul(width) {
        Some(t) => if t < bytes.len() { t } else { bytes.len() },
        None => bytes.len(),
    };
    proof {
        assert(rows == sampled_rows(width as int, height as int));
        if total >= bytes@.len() {
            lemma_sums_past_end(bytes@, ch as int, total);
        }
    }
    let (mut r, mut g, mut b, mut n) = (0u128, 0u128, 0u128, 0u128);
    let mut p: usize = 0;
    while p < limit
        invariant
            0 <= p <= limit,
            limit <= bytes@.len(),
            1 <= ch <= 4,
            (r as int, g as int, b as int, n as int) == sums(bytes@, ch as int, p as int),
        decreases limit - p,
    {
        proof {
            lemma_sums_bound(bytes@, ch as int, p as int);
            assert(p * ch <= 4 * 0x1_0000_0000_0000_0000) by (nonlinear_arith)
                requires
                    p <= 0x1_0000_0000_0000_0000,
                    1 <= ch <= 4,
            ;
        }
        let o: u128 = (p as u128) * (ch as u128);
        if o + (ch as u128) <= bytes.len() as u128 {
            let o = o as usize;
            let (pr, pg, pb, pa) = if ch == 4 {
                (bytes[o], bytes[o + 1], bytes[o + 2], bytes[o + 3])
            } else if ch == 3 {
                (bytes[o], bytes[o + 1], bytes[o + 2], 255u8)
            } else if ch == 2 {
                (bytes[o], bytes[o], bytes[o], bytes[o + 1])
            } else {
                (bytes[o], bytes[o], bytes[o], 255u8)
            };
            if pa >= 16 {
                r = r + pr as u128;
                g = g + pg as u128;
                b = b + pb as u128;
                n = n + 1;
            }
        }
        p = p + 1;
    }
    if n == 0 {
        return None;
    }
    proof {
        lemma_sums_bound(bytes@, ch as int, limit as int);
        assert(r / n <= 255 && g / n <= 255 && b / n <= 255) by (nonlinear_arith)
            requires
                n > 0,
                r <= 255 * n,
                g <= 255 * n,
                b <= 255 * n,
        ;
    }
    Some([(r / n) as u32, (g / n) as u32, (b / n) as u32])
}

/// The first frame of a PNG file decoded by the `png` crate with the
/// `EXPAND` and `STRIP_16` transformations: its pixel bytes, channels per
/// pixel (0 for a color type that is still indexed), width and height;
/// `None` when the crate reports an error.
pub uninterp spec fn png_frame(bytes: Seq<u8>) -> Option<(Seq<u8>, usize, usize, usize)>;

/// Decodes the first frame of a PNG with `png::Decoder` (`EXPAND` and
/// `STRIP_16` set), `next_frame` into a buffer of `output_buffer_size`,
/// cut to the frame's `buffer_size`. Claims: the result is `png_frame` of
/// the bytes.
#[verifier::external_body]
fn decode_png(bytes: &[u8]) -> (r: Option<(Vec<u8>, usize, usize, usize)>)
    ensures
        match png_frame(bytes@) {
            Some((px, ch, w, h)) => r matches Some((v, c, ww, hh)) && v@ == px && c == ch && ww == w && hh == h,
            None => r is None,
        },
{
    let mut decoder = png::Decoder::new(bytes);
    decoder.set_transformations(png::Transformations::EXPAND | png::Transformations::STRIP_16);
    let mut reader = decoder.read_info().ok()?;
    let mut buf = vec![0u8; reader.output_buffer_size()];
    let info = reader.next_frame(&mut buf).ok()?;
    buf.truncate(info.buffer_size());
    let ch: usize = match info.color_type {
        png::ColorType::Rgba => 4,
        png::ColorType::Rgb => 3,
        png::ColorType::GrayscaleAlpha => 2,
        png::ColorType::Grayscale => 1,
        png::ColorType::Indexed => 0,
    };
    Some((buf, ch, info.width as usize, info.height as usize))
}

/// The average color of a PNG texture's visible pixels (see
/// `spec_average`); `None` when the file does not decode, its frame is
/// still indexed, or no pixel is visible.
pub fn texture_average(png: &[u8]) -> (r: Option<[u32; 3]>)
    ensures
        match png_frame(png@) {
            None => r is None,
            Some((px, ch, w, h)) => if 1 <= ch <= 4 {
                match spec_average(px, ch as int, w as int, h as int) {
                    None => r is None,
                    Some(c) => r == Some([c.0, c.1, c.2]),
                }
            } else {
                r is None
            },
        },
        r matches Some(c) ==> c[0] <= 255 && c[1] <= 255 && c[2] <= 255,
{
    match decode_png(png) {
        None => None,
        Some((px, ch, w, h)) => if 1 <= ch && ch <= 4 {
            average_rgb(px.as_slice(), ch, w, h)
        } else {
            None
        },
    }
}

/// A color multiplied by a tint, channel by channel, scaled back by 255;
/// a missing color counts as mid gray.
pub open spec fn spec_tint(c: Option<[u32; 3]>, t: [u32; 3]) -> [u32; 3] {
    let base = match c {
        Some(v) => v,
        None => [127u32, 127u32, 127u32],
    };
    [(base[0] * t[0] / 255) as u32, (base[1] * t[1] / 255) as u32, (base[2] * t[2] / 255) as u32]
}

pub fn tint(c: Option<[u32; 3]>, t: [u32; 3]) -> (r: [u32; 3])
    requires
        c matches Some(v) ==> v[0] <= 255 && v[1] <= 255 && v[2] <= 255,
        t[0] <= 255 && t[1] <= 255 && t[2] <= 255,
    ensures
        r == spec_tint(c, t),
{
    let base = match c {
        Some(v) => v,
        None => [127u32, 127u32, 127u32],
    };
    assert(base[0] * t[0] <= 255 * 255 && base[1] * t[1] <= 255 * 255 && base[2] * t[2] <= 255 * 255) by (nonlinear_arith)
        requires
            base[0] <= 255 && base[1] <= 255 && base[2] <= 255,
            t[0] <= 255 && t[1] <= 255 && t[2] <= 255,
    ;
    let r = [base[0] * t[0] / 255, base[1] * t[1] / 255, base[2] * t[2] / 255];
    assert(r =~= spec_tint(c, t));
    r
}

// ---------------------------------------------------------------------------
// Which texture files a block name reads.
// ---------------------------------------------------------------------------

/// `t` occurs in `s` at index `i`.
pub open spec fn occurs_at(s: Seq<char>, t: Seq<char>, i: int) -> bool {
    0 <= i && i + t.len() <= s.len() && s.subrange(i, i + t.len()) == t
}

pub open spec fn starts_with(s: Seq<char>, t: Seq<char>) -> bool {
    occurs_at(s, t, 0)
}

pub open spec fn ends_with(s: Seq<char>, t: Seq<char>) -> bool {
    occurs_at(s, t, s.len() - t.len())
}

pub open spec fn contains_text(s: Seq<char>, t: Seq<char>) -> bool {
    exists|i: int| occurs_at(s, t, i)
}

/// `s` with every occurrence of `t` removed, scanning left to right
/// (`str::replace` with an empty replacement).
pub open spec fn without(s: Seq<char>, t: Seq<char>) -> Seq<char>
    decreases s.len(),
{
    if t.len() == 0 || s.len() < t.len() {
        s
    } else if s.take(t.len() as int) == t {
        without(s.skip(t.len() as int), t)
    } else {
        seq![s[0]] + without(s.skip(1), t)
    }
}

fn occurs_at_exec(s: &[char], t: &[char], i: usize) -> (r: bool)
    ensures
        r == occurs_at(s@, t@, i as int),
{
    if i > s.len() || t.len() > s.len() - i {
        return false;
    }
    let mut j: usize = 0;
    while j < t.len()
        invariant
            i + t.len() <= s.len(),
            j <= t.len(),
            forall|k: int| 0 <= k < j ==> s@[i + k] == t@[k],
        decreases t.len() - j,
    {
        if s[i + j] != t[j] {
            assert(s@.subrange(i as int, i + t.len())[j as int] != t@[j as int]);
            return false;
        }
        j = j + 1;
    }
    assert(s@.subrange(i as int, i + t.len()) =~= t@);
    true
}

fn ends_with_exec(s: &[char], t: &[char]) -> (r: bool)
    ensures
        r == ends_with(s@, t@),
{
    if t.len() > s.len() {
        return false;
    }
    occurs_at_exec(s, t, s.len() - t.len())
}

fn contains_exec(s: &[char], t: &[char]) -> (r: bool)
    ensures
        r == contains_text(s@, t@),
{
    if t.len() > s.len() {
        return false;
    }
    let mut i: usize = 0;
    while i <= s.len() - t.len()
        invariant_except_break
            t.len() <= s.len(),
            i <= s.len() - t.len(),
            forall|k: int| 0 <= k < i ==> !occurs_at(s@, t@, k),
        ensures
            forall|k: int| 0 <= k <= s.len() - t.len() ==> !occurs_at(s@, t@, k),
        decreases s.len() - t.len() - i,
    {
        if occurs_at_exec(s, t, i) {
            return true;
        }
        if i == s.len() - t.len() {
            break;
        }
        i = i + 1;
    }
    false
}

fn without_exec(s: &[char], t: &[char]) -> (r: Vec<char>)
    ensures
        r@ == without(s@, t@),
{
    let mut out: Vec<char> = Vec::new();
    let mut i: usize = 0;
    assert(s@.skip(0) =~= s@);
    while i < s.len()
        invariant
            i <= s.len(),
            out@ + without(s@.skip(i as int), t@) == without(s@, t@),
        decreases s.len() - i,
    {
        let ghost rest = s@.skip(i as int);
        if t.len() > 0 && occurs_at_exec(s, t, i) {
            assert(rest.take(t.len() as int) =~= s@.subrange(i as int, i + t.len()));
            assert(rest.skip(t.len() as int) =~= s@.skip(i + t.len()));
            i = i + t.len();
        } else if t.len() == 0 || t.len() > s.len() - i {
            assert(without(rest, t@) == rest);
            let mut k: usize = i;
            while k < s.len()
                invariant
                    i <= k <= s.len(),
                    out@ + s@.skip(k as int) == without(s@, t@),
                decreases s.len() - k,
            {
                assert(s@.skip(k as int) =~= seq![s@[k as int]] + s@.skip(k + 1));
                out.push(s[k]);
                k = k + 1;
            }
            assert(s@.skip(k as int) =~= Seq::<char>::empty());
            assert(out@ =~= without(s@, t@));
            return out;
        } else {
            assert(rest.take(t.len() as int) =~= s@.subrange(i as int, i + t.len()));
            assert(rest.skip(1) =~= s@.skip(i + 1));
            assert(rest[0] == s@[i as int]);
            assert(out@.push(s@[i as int]) + without(s@.skip(i + 1), t@) =~= out@ + without(rest, t@));
            out.push(s[i]);
            i = i + 1;
        }
    }
    assert(s@.skip(i as int) =~= Seq::<char>::empty());
    assert(without(Seq::<char>::empty(), t@) =~= Seq::<char>::empty());
    assert(out@ =~= without(s@, t@));
    out
}

fn same_text(a: &[char], b: &[char]) -> (r: bool)
    ensures
        r == (a@ == b@),
{
    if a.len() != b.len() {
        return false;
    }
    let r = occurs_at_exec(a, b, 0);
    assert(a@.subrange(0, a@.len() as int) =~= a@);
    r
}

fn is_text(a: &[char], lit: &str) -> (r: bool)
    ensures
        r == (a@ == lit@),
{
    let b = text::chars_of(lit);
    same_text(a, b.as_slice())
}

/// The characters of `a` followed by those of `b`.
fn join_text(a: &[char], b: &str) -> (r: Vec<char>)
    ensures
        r@ == a@ + b@,
{
    let mut out: Vec<char> = Vec::new();
    let mut i: usize = 0;
    while i < a.len()
        invariant
            i <= a.len(),
            out@ == a@.take(i as int),
        decreases a.len() - i,
    {
        assert(a@.take(i + 1) =~= a@.take(i as int).push(a@[i as int]));
        out.push(a[i]);
        i = i + 1;
    }
    assert(a@.take(i as int) =~= a@);
    text::push_str(&mut out, b);
    out
}

/// The log texture a `*_wood` or `*_hyphae` block shows: the log's (or
/// stem's) own.
pub open spec fn log_alias(n: Seq<char>) -> Option<Seq<char>> {
    if ends_with(n, "_wood"@) {
        Some(n.take(n.len() - 5) + "_log"@)
    } else if ends_with(n, "_hyphae"@) {
        Some(n.take(n.len() - 7) + "_stem"@)
    } else {
        None
    }
}

/// Texture names tried for a block after its own: the liquids' still
/// textures, the magma and portal textures, a wood's log (and the
/// unstripped log), an infested block's plain block.
pub open spec fn texture_aliases(n: Seq<char>) -> Seq<Seq<char>> {
    if n == "water"@ {
        seq!["water_still"@]
    } else if n == "lava"@ || n == "lava_cauldron"@ {
        seq!["lava_still"@]
    } else if n == "magma_block"@ {
        seq!["magma"@]
    } else if n == "nether_portal"@ {
        seq!["nether_portal"@]
    } else {
        (match log_alias(n) {
            Some(l) => seq![l, without(l, "stripped_"@)],
            None => Seq::empty(),
        }) + (if starts_with(n, "infested_"@) {
            seq![n.skip(9)]
        } else {
            Seq::empty()
        })
    }
}

/// A face of a block, for picking its texture.
#[derive(Clone, Copy, PartialEq, Eq, Debug, Structural)]
pub enum Face {
    Top,
    Side,
    Bottom,
}

/// The texture names tried, in order, for one face of the block named `n`.
pub open spec fn spec_texture_candidates(n: Seq<char>, face: Face) -> Seq<Seq<char>> {
    (match face {
        Face::Top => seq![n + "_top"@, n, n + "_side"@],
        Face::Side => seq![n + "_side"@, n, n + "_top"@],
        Face::Bottom => seq![n + "_bottom"@, n, n + "_side"@, n + "_top"@],
    }) + texture_aliases(n)
}

fn push_string(out: &mut Vec<String>, cs: &[char])
    ensures
        final(out)@.len() == old(out)@.len() + 1,
        forall|i: int| 0 <= i < old(out)@.len() ==> #[trigger] final(out)@[i] == old(out)@[i],
        final(out)@[old(out)@.len() as int]@ == cs@,
{
    out.push(text::string_from_chars(cs));
}

/// The texture names to try, in order, for one face of the block `name`
/// (see `spec_texture_candidates`).
pub fn texture_candidates(name: &str, face: Face) -> (r: Vec<String>)
    ensures
        r@.len() == spec_texture_candidates(name@, face).len(),
        forall|i: int| 0 <= i < r@.len() ==> #[trigger] r@[i]@ == spec_texture_candidates(name@, face)[i],
{
    let n = text::chars_of(name);
    let ns = n.as_slice();
    let ghost nn = name@;
    let mut lists: Vec<Vec<char>> = Vec::new();
    match face {
        Face::Top => {
            lists.push(join_text(ns, "_top"));
            lists.push(join_text(ns, ""));
            lists.push(join_text(ns, "_side"));
        },
        Face::Side => {
            lists.push(join_text(ns, "_side"));
            lists.push(join_text(ns, ""));
            lists.push(join_text(ns, "_top"));
        },
        Face::Bottom => {
            lists.push(join_text(ns, "_bottom"));
            lists.push(join_text(ns, ""));
            lists.push(join_text(ns, "_side"));
            lists.push(join_text(ns, "_top"));
        },
    }
    proof {
        reveal_strlit("");
        assert(nn + ""@ =~= nn);
    }
    let ghost head = lists@.map_values(|v: Vec<char>| v@);
    assert(head =~= (match face {
        Face::Top => seq![nn + "_top"@, nn, nn + "_side"@],
        Face::Side => seq![nn + "_side"@, nn, nn + "_top"@],
        Face::Bottom => seq![nn + "_bottom"@, nn, nn + "_side"@, nn + "_top"@],
    }));
    let ghost before = lists@.len();
    let aliases = alias_texts(ns);
    let mut k: usize = 0;
    while k < aliases.len()
        invariant
            k <= aliases@.len(),
            lists@.len() == before + k,
            lists@.map_values(|v: Vec<char>| v@) == head + aliases@.map_values(|v: Vec<char>| v@).take(k as int),
        decreases aliases@.len() - k,
    {
        let ghost l0 = lists@.map_values(|v: Vec<char>| v@);
        lists.push(aliases[k].clone());
        assert(lists@.map_values(|v: Vec<char>| v@) =~= l0.push(aliases@[k as int]@));
        assert(aliases@.map_values(|v: Vec<char>| v@).take(k + 1) =~= aliases@.map_values(|v: Vec<char>| v@).take(k as int).push(aliases@[k as int]@));
        k = k + 1;
    }
    assert(aliases@.map_values(|v: Vec<char>| v@).take(k as int) =~= aliases@.map_values(|v: Vec<char>| v@));
    let ghost all = lists@.map_values(|v: Vec<char>| v@);
    assert(all =~= spec_texture_candidates(nn, face));
    let mut out: Vec<String> = Vec::new();
    let mut i: usize = 0;
    while i < lists.len()
        invariant
            i <= lists@.len(),
            all == lists@.map_values(|v: Vec<char>| v@),
            out@.len() == i,
            forall|j: int| 0 <= j < i ==> #[trigger] out@[j]@ == all[j],
        decreases lists@.len() - i,
    {
        push_string(&mut out, lists[i].as_slice());
        i = i + 1;
    }
    out
}

/// The character lists of `texture_aliases`.
fn alias_texts(n: &[char]) -> (r: Vec<Vec<char>>)
    ensures
        r@.map_values(|v: Vec<char>| v@) == texture_aliases(n@),
{
    let mut r: Vec<Vec<char>> = Vec::new();
    if is_text(n, "water") {
        r.push(text::chars_of("water_still"));
    } else if is_text(n, "lava") || is_text(n, "lava_cauldron") {
        r.push(text::chars_of("lava_still"));
    } else if is_text(n, "magma_block") {
        r.push(text::chars_of("magma"));
    } else if is_text(n, "nether_portal") {
        r.push(text::chars_of("nether_portal"));
    } else {
        let wood = text::chars_of("_wood");
        let hyphae = text::chars_of("_hyphae");
        proof {
            reveal_strlit("_wood");
            reveal_strlit("_hyphae");
        }
        let log: Option<Vec<char>> = if ends_with_exec(n, wood.as_slice()) {
            Some(join_text(prefix(n, n.len() - 5).as_slice(), "_log"))
        } else if ends_with_exec(n, hyphae.as_slice()) {
            Some(join_text(prefix(n, n.len() - 7).as_slice(), "_stem"))
        } else {
            None
        };
        match log {
            Some(l) => {
                let stripped = text::chars_of("stripped_");
                let plain = without_exec(l.as_slice(), stripped.as_slice());
                r.push(l);
                r.push(plain);
            },
            None => {},
        }
        let inf = text::chars_of("infested_");
        proof {
            reveal_strlit("infested_");
        }
        if occurs_at_exec(n, inf.as_slice(), 0) {
            r.push(suffix(n, 9));
        }
    }
    assert(r@.map_values(|v: Vec<char>| v@) =~= texture_aliases(n@));
    r
}

fn prefix(n: &[char], k: usize) -> (r: Vec<char>)
    requires
        k <= n@.len(),
    ensures
        r@ == n@.take(k as int),
{
    let mut out: Vec<char> = Vec::new();
    let mut i: usize = 0;
    while i < k
        invariant
            i <= k <= n@.len(),
            out@ == n@.take(i as int),
        decreases k - i,
    {
        assert(n@.take(i + 1) =~= n@.take(i as int).push(n@[i as int]));
        out.push(n[i]);
        i = i + 1;
    }
    out
}

fn suffix(n: &[char], k: usize) -> (r: Vec<char>)
    requires
        k <= n@.len(),
    ensures
        r@ == n@.skip(k as int),
{
    let mut out: Vec<char> = Vec::new();
    let mut i: usize = k;
    while i < n.len()
        invariant
            k <= i <= n@.len(),
            out@ == n@.subrange(k as int, i as int),
        decreases n@.len() - i,
    {
        assert(n@.subrange(k as int, i + 1) =~= n@.subrange(k as int, i as int).push(n@[i as int]));
        out.push(n[i]);
        i = i + 1;
    }
    assert(n@.subrange(k as int, i as int) =~= n@.skip(k as int));
    out
}

/// How a block's face colors are tinted: liquids blue, a grass block's top
/// grass green, foliage leaf green, everything else left as it is.
#[derive(Clone, Copy, PartialEq, Eq, Debug, Structural)]
pub enum TintKind {
    Water,
    GrassTop,
    Foliage,
    Plain,
}

pub open spec fn spec_is_foliage(n: Seq<char>) -> bool {
    contains_text(n, "leaves"@) || n == "vine"@ || n == "fern"@ || n == "large_fern"@ || ends_with(n, "_grass"@)
        || n == "grass"@ || n == "lily_pad"@
}

pub open spec fn spec_tint_kind(n: Seq<char>) -> TintKind {
    if n == "water"@ || n == "bubble_column"@ {
        TintKind::Water
    } else if n == "grass_block"@ {
        TintKind::GrassTop
    } else if spec_is_foliage(n) {
        TintKind::Foliage
    } else {
        TintKind::Plain
    }
}

/// How the block named `name` is tinted (see `spec_tint_kind`).
pub fn tint_kind(name: &str) -> (r: TintKind)
    ensures
        r == spec_tint_kind(name@),
{
    let n = text::chars_of(name);
    let ns = n.as_slice();
    if is_text(ns, "water") || is_text(ns, "bubble_column") {
        TintKind::Water
    } else if is_text(ns, "grass_block") {
        TintKind::GrassTop
    } else {
        let leaves = text::chars_of("leaves");
        let grass_end = text::chars_of("_grass");
        if contains_exec(ns, leaves.as_slice()) || is_text(ns, "vine") || is_text(ns, "fern") || is_text(ns, "large_fern")
            || ends_with_exec(ns, grass_end.as_slice()) || is_text(ns, "grass") || is_text(ns, "lily_pad") {
            TintKind::Foliage
        } else {
            TintKind::Plain
        }
    }
}

pub const FOLIAGE_TINT: [u32; 3] = [72, 145, 58];
pub const GRASS_TINT: [u32; 3] = [124, 189, 107];
pub const WATER_TINT: [u32; 3] = [63, 118, 201];

/// A color, mid gray when missing.
pub open spec fn spec_plain(c: Option<[u32; 3]>) -> [u32; 3] {
    match c {
        Some(v) => v,
        None => [127u32, 127u32, 127u32],
    }
}

/// The top, side and bottom colors of a block with the given tinting, from
/// its faces' texture averages.
pub open spec fn spec_face_colors(k: TintKind, top: Option<[u32; 3]>, side: Option<[u32; 3]>, bottom: Option<[u32; 3]>) -> (
    [u32; 3],
    [u32; 3],
    [u32; 3],
) {
    match k {
        TintKind::Water => (spec_tint(top, WATER_TINT), spec_tint(side, WATER_TINT), spec_tint(bottom, WATER_TINT)),
        TintKind::GrassTop => (spec_tint(top, GRASS_TINT), spec_plain(side), spec_plain(bottom)),
        TintKind::Foliage => (spec_tint(top, FOLIAGE_TINT), spec_tint(side, FOLIAGE_TINT), spec_tint(bottom, FOLIAGE_TINT)),
        TintKind::Plain => (spec_plain(top), spec_plain(side), spec_plain(bottom)),
    }
}

pub open spec fn color_ok(c: Option<[u32; 3]>) -> bool {
    c matches Some(v) ==> v[0] <= 255 && v[1] <= 255 && v[2] <= 255
}

fn plain(c: Option<[u32; 3]>) -> (r: [u32; 3])
    ensures
        r == spec_plain(c),
{
    match c {
        Some(v) => v,
        None => [127u32, 127u32, 127u32],
    }
}

/// The colors of a block's faces (see `spec_face_colors`).
pub fn face_colors(k: TintKind, top: Option<[u32; 3]>, side: Option<[u32; 3]>, bottom: Option<[u32; 3]>) -> (r: (
    [u32; 3],
    [u32; 3],
    [u32; 3],
))
    requires
        color_ok(top),
        color_ok(side),
        color_ok(bottom),
    ensures
        r == spec_face_colors(k, top, side, bottom),
{
    match k {
        TintKind::Water => (tint(top, WATER_TINT), tint(side, WATER_TINT), tint(bottom, WATER_TINT)),
        TintKind::GrassTop => (tint(top, GRASS_TINT), plain(side), plain(bottom)),
        TintKind::Foliage => (tint(top, FOLIAGE_TINT), tint(side, FOLIAGE_TINT), tint(bottom, FOLIAGE_TINT)),
        TintKind::Plain => (plain(top), plain(side), plain(bottom)),
    }
}

} // verus!
