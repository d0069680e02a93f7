//! What the display side computes: the argument lists handed to fastfetch
//! and chafa, the chafa picture size, and the side-by-side layout of the
//! picture next to the system information.
use vstd::prelude::*;
use crate::text::{
    chars_of, decimal, numeral, parse_int, parse_usize, push_char, push_numeral, push_range,
    push_spaces, views,
};

verus! {

/// An owned copy of `s`.
pub fn owned(s: &str) -> (r: String)
    ensures
        r@ == s@,
{
    String::from_str(s)
}

/// Appends the owned copies of `extra` to `v`.
pub fn push_all(v: &mut Vec<String>, extra: &[String])
    ensures
        views(final(v)@) == views(old(v)@) + views(extra@),
{
    let ghost start = views(v@);
    let mut i: usize = 0;
    while i < extra.len()
        invariant
            i <= extra.len(),
            views(v@) == start + views(extra@).take(i as int),
        decreases extra.len() - i,
    {
        let ghost before = views(v@);
        v.push(extra[i].clone());
        assert(views(v@) == before.push(extra@[i as int]@));
        assert(views(extra@).take(i + 1) == views(extra@).take(i as int).push(extra@[i as int]@));
        i += 1;
    }
    assert(views(extra@).take(extra.len() as int) == views(extra@));
}

// ───────────────────────── fastfetch ─────────────────────────

/// The arguments of a fastfetch run that shows `image_path` as its logo.
pub open spec fn fastfetch_logo_args(
    image_path: Seq<char>,
    logo_width: Option<u32>,
    extra: Seq<Seq<char>>,
) -> Seq<Seq<char>> {
    let base = seq!["--logo"@, image_path, "--logo-preserve-aspect-ratio"@, "true"@];
    let width = match logo_width {
        Some(w) => seq!["--logo-width"@, numeral(w as nat, 10)],
        None => Seq::empty(),
    };
    base + width + extra
}

/// The arguments with which fastfetch shows `image_path` as its logo, at
/// `logo_width` columns where one is given, followed by `extra_args`.
pub fn fastfetch_args(image_path: &str, logo_width: Option<u32>, extra_args: &[String]) -> (r: Vec<
    String,
>)
    ensures
        views(r@) == fastfetch_logo_args(image_path@, logo_width, views(extra_args@)),
{
    let mut v: Vec<String> = Vec::new();
    v.push(owned("--logo"));
    v.push(owned(image_path));
    v.push(owned("--logo-preserve-aspect-ratio"));
    v.push(owned("true"));
    if let Some(width) = logo_width {
        v.push(owned("--logo-width"));
        v.push(decimal(width as u128));
    }
    let ghost head = views(v@);
    assert(head == fastfetch_logo_args(image_path@, logo_width, Seq::empty()));
    push_all(&mut v, extra_args);
    v
}

/// The arguments of the fastfetch run that prints only the system
/// information, without a logo, for the side-by-side layout.
pub open spec fn fastfetch_text_args(extra: Seq<Seq<char>>) -> Seq<Seq<char>> {
    seq!["-l"@, "none"@] + extra
}

/// The arguments with which fastfetch prints its text alone (`-l none`).
pub fn fastfetch_capture_args(extra_args: &[String]) -> (r: Vec<String>)
    ensures
        views(r@) == fastfetch_text_args(views(extra_args@)),
{
    let mut v: Vec<String> = Vec::new();
    v.push(owned("-l"));
    v.push(owned("none"));
    assert(views(v@) == seq!["-l"@, "none"@]);
    push_all(&mut v, extra_args);
    v
}

// ───────────────────────── chafa ─────────────────────────

/// The terminal width that `COLUMNS` gives, 80 where it is unset or is not
/// a number.
pub open spec fn term_columns(columns: Option<Seq<char>>) -> nat {
    match columns {
        Some(c) => match parse_int(c, false) {
            Some(x) => if x <= usize::MAX { x as nat } else { 80 },
            None => 80,
        },
        None => 80,
    }
}

/// Detect terminal width in columns from the value of `COLUMNS`. Falls back to 80.
pub fn term_width_from(columns: Option<&str>) -> (n: usize)
    ensures
        n == term_columns(match columns { Some(c) => Some(c@), None => None }),
{
    match columns {
        Some(c) => match parse_usize(c) {
            Some(x) => x,
            None => 80,
        },
        None => 80,
    }
}

/// The width of the chafa picture: the given width, or a third of the
/// terminal (at least 20 columns).
pub open spec fn chafa_width(term_cols: usize, width_override: Option<u32>) -> u32 {
    match width_override {
        Some(w) => w,
        None => {
            let third = term_cols / 3;
            (if third > 20 { third } else { 20usize }) as u32
        },
    }
}

/// The height of the chafa picture: the width scaled by the crop aspect
/// ratio, rounded down to an even number; twice the width without a crop
/// width.
pub open spec fn chafa_height(width: u32, crop_width: u32, crop_height: u32) -> u32 {
    if crop_width > 0 {
        ((width as int * crop_height as int) / (crop_width as int) / 2 * 2) as u32
    } else {
        (width * 2) as u32
    }
}

/// The chafa picture size `(width, height)` in characters.
/// If `term_width_override` is provided, use it as the image width.
/// Otherwise, use 1/3 of `term_cols` for the image.
/// Height is calculated from the crop dimensions' aspect ratio.
pub fn chafa_size(term_cols: usize, crop_width: u32, crop_height: u32, term_width_override: Option<
    u32,
>) -> (r: (u32, u32))
    requires
        crop_width > 0 || chafa_width(term_cols, term_width_override) * 2 <= u32::MAX,
    ensures
        r.0 == chafa_width(term_cols, term_width_override),
        r.1 == chafa_height(r.0, crop_width, crop_height),
{
    let img_width: u32 = match term_width_override {
        Some(w) => w,
        None => {
            let third = term_cols / 3;
            let m = if third > 20 { third } else { 20 };
            #[verifier::truncate]
            (m as u32)
        },
    };
    let img_height: u32 = if crop_width > 0 {
        assert(img_width as u64 * crop_height as u64 <= 0xffff_ffff_ffff_ffff) by (nonlinear_arith)
            requires img_width <= 0xffff_ffff, crop_height <= 0xffff_ffff;
        let p: u64 = img_width as u64 * crop_height as u64;
        #[verifier::truncate]
        ((p / crop_width as u64 / 2 * 2) as u32)
    } else {
        img_width * 2
    };
    (img_width, img_height)
}

/// The chafa arguments for a picture of `width` x `height` characters.
pub open spec fn chafa_arg_list(image_path: Seq<char>, width: u32, height: u32) -> Seq<Seq<char>> {
    seq![
        "-s"@,
        numeral(width as nat, 10) + seq!['x'] + numeral(height as nat, 10),
        "--format"@,
        "symbols"@,
        "--relative"@,
        "off"@,
        image_path,
    ]
}

/// The arguments with which chafa draws `image_path` as `width` x `height`
/// characters of symbols.
pub fn chafa_args(image_path: &str, width: u32, height: u32) -> (r: Vec<String>)
    ensures
        views(r@) == chafa_arg_list(image_path@, width, height),
{
    let mut size = String::new();
    push_numeral(&mut size, width as u128, 10);
    push_char(&mut size, 'x');
    push_numeral(&mut size, height as u128, 10);
    assert(size@ =~= numeral(width as nat, 10) + seq!['x'] + numeral(height as nat, 10));
    let mut v: Vec<String> = Vec::new();
    v.push(owned("-s"));
    v.push(size);
    v.push(owned("--format"));
    v.push(owned("symbols"));
    v.push(owned("--relative"));
    v.push(owned("off"));
    v.push(owned(image_path));
    assert(views(v@) =~= chafa_arg_list(image_path@, width, height));
    v
}

// ───────────────────────── visible width ─────────────────────────

/// The number of characters of `s` that show on a terminal, reading from a
/// state that is inside an escape sequence when `esc` holds: an ESC
/// character starts an escape sequence, an `m` ends it, and no character of
/// one counts.
pub open spec fn width_from(s: Seq<char>, esc: bool) -> nat
    decreases s.len(),
{
    if s.len() == 0 {
        0
    } else if s[0] == '\x1b' {
        width_from(s.drop_first(), true)
    } else if esc {
        width_from(s.drop_first(), s[0] != 'm')
    } else {
        1 + width_from(s.drop_first(), false)
    }
}

/// The visible width of `s`: its characters outside ANSI escape sequences.
pub open spec fn visible_width_of(s: Seq<char>) -> nat {
    width_from(s, false)
}

/// The visible width of a line, its ANSI escape sequences left out.
pub fn visible_width(s: &Vec<char>) -> (n: usize)
    ensures
        n == visible_width_of(s@),
{
    let mut count: usize = 0;
    let mut in_escape = false;
    let mut i: usize = 0;
    assert(s@.skip(0) == s@);
    while i < s.len()
        invariant
            i <= s.len(),
            count <= i,
            count + width_from(s@.skip(i as int), in_escape) == width_from(s@, false),
        decreases s.len() - i,
    {
        let ch = s[i];
        let ghost t = s@.skip(i as int);
        assert(t[0] == ch);
        assert(t.drop_first() == s@.skip(i + 1));
        if ch == '\x1b' {
            in_escape = true;
        } else if in_escape {
            if ch == 'm' {
                in_escape = false;
            }
        } else {
            count += 1;
        }
        i += 1;
    }
    assert(s@.skip(i as int).len() == 0);
    count
}

// ───────────────────────── side-by-side layout ─────────────────────────

/// The widest visible width among `ls`, 0 for none.
pub open spec fn max_width(ls: Seq<Seq<char>>) -> nat
    decreases ls.len(),
{
    if ls.len() == 0 {
        0
    } else {
        let w = visible_width_of(ls.last());
        let m = max_width(ls.drop_last());
        if w > m { w } else { m }
    }
}

/// `n` spaces.
pub open spec fn spaces(n: nat) -> Seq<char> {
    Seq::new(n, |i: int| ' ')
}

/// The escape sequence that resets all colours.
pub open spec fn ansi_reset() -> Seq<char> {
    seq!['\x1b', '[', '0', 'm']
}

/// Line `i` of the layout: the left line (colour reset, padded to `lw`
/// visible columns) or `lw` blanks where it is missing or empty, then `gap`
/// blanks, then the right line where there is one, then a newline.
pub open spec fn layout_line(
    left: Seq<Seq<char>>,
    right: Seq<Seq<char>>,
    gap: nat,
    lw: nat,
    i: int,
) -> Seq<char> {
    let l = if i < left.len() { left[i] } else { Seq::<char>::empty() };
    let head = if l.len() > 0 {
        l + ansi_reset() + spaces((lw - visible_width_of(l)) as nat)
    } else {
        spaces(lw)
    };
    let r = if i < right.len() { right[i] } else { Seq::<char>::empty() };
    head + spaces(gap) + r + seq!['\n']
}

/// The first `n` lines of the layout, joined.
pub open spec fn layout_lines(
    left: Seq<Seq<char>>,
    right: Seq<Seq<char>>,
    gap: nat,
    lw: nat,
    n: nat,
) -> Seq<char>
    decreases n,
{
    if n == 0 {
        Seq::empty()
    } else {
        layout_lines(left, right, gap, lw, (n - 1) as nat) + layout_line(
            left,
            right,
            gap,
            lw,
            n - 1,
        )
    }
}

/// The whole side-by-side layout of `left` and `right`: as many lines as the
/// longer of the two, the left column as wide as its widest line.
pub open spec fn layout(left: Seq<Seq<char>>, right: Seq<Seq<char>>, gap: nat) -> Seq<char> {
    let n = if left.len() > right.len() { left.len() } else { right.len() };
    layout_lines(left, right, gap, max_width(left), n)
}

proof fn lemma_max_width_bound(ls: Seq<Seq<char>>, i: int)
    requires
        0 <= i < ls.len(),
    ensures
        visible_width_of(ls[i]) <= max_width(ls),
    decreases ls.len(),
{
    if i < ls.len() - 1 {
        lemma_max_width_bound(ls.drop_last(), i);
    }
}

/// Appends line `i` of the layout to `result`.
fn push_layout_line(
    result: &mut String,
    left: &[String],
    right: &[String],
    gap: usize,
    left_width: usize,
    i: usize,
)
    requires
        left_width == max_width(views(left@)),
    ensures
        final(result)@ == old(result)@ + layout_line(
            views(left@),
            views(right@),
            gap as nat,
            left_width as nat,
            i as int,
        ),
{
    let ghost lv = views(left@);
    let ghost rv = views(right@);
    let ghost l = if i < lv.len() { lv[i as int] } else { Seq::<char>::empty() };
    let lchars: Vec<char> = if i < left.len() { chars_of(left[i].as_str()) } else { Vec::new() };
    assert(lchars@ == l);
    if lchars.len() > 0 {
        let lw = visible_width(&lchars);
        proof {
            lemma_max_width_bound(lv, i as int);
        }
        push_range(result, &lchars, 0, lchars.len());
        assert(lchars@.subrange(0, lchars@.len() as int) == l);
        result.append("\x1b[0m");
        proof {
            reveal_strlit("\x1b[0m");
        }
        push_spaces(result, left_width - lw);
    } else {
        push_spaces(result, left_width);
    }
    push_spaces(result, gap);
    if i < right.len() {
        result.append(right[i].as_str());
    }
    push_char(result, '\n');
}

/// Merge two line vectors side by side, with a gap between them.
/// Left lines get an ANSI reset appended to prevent color bleed.
/// When left lines run out, pads with spaces matching the visible width
/// of the widest left line so the right side stays aligned.
pub fn merge_side_by_side(left: &[String], right: &[String], gap: usize) -> (r: String)
    ensures
        r@ == layout(views(left@), views(right@), gap as nat),
{
    let ghost lv = views(left@);
    let ghost rv = views(right@);
    let max_lines = if left.len() > right.len() { left.len() } else { right.len() };

    let mut left_width: usize = 0;
    let mut k: usize = 0;
    while k < left.len()
        invariant
            k <= left.len(),
            lv == views(left@),
            left_width == max_width(lv.take(k as int)),
        decreases left.len() - k,
    {
        let w = visible_width(&chars_of(left[k].as_str()));
        assert(lv.take(k + 1).drop_last() == lv.take(k as int));
        assert(lv.take(k + 1).last() == left@[k as int]@);
        if w > left_width {
            left_width = w;
        }
        k += 1;
    }
    assert(lv.take(left.len() as int) == lv);

    let mut result = String::new();
    let mut i: usize = 0;
    while i < max_lines
        invariant
            i <= max_lines,
            max_lines == (if left.len() > right.len() { left.len() } else { right.len() }),
            lv == views(left@),
            rv == views(right@),
            left_width == max_width(lv),
            result@ == layout_lines(lv, rv, gap as nat, left_width as nat, i as nat),
        decreases max_lines - i,
    {
        push_layout_line(&mut result, left, right, gap, left_width, i);
        i += 1;
    }
    result
}

// ───────────────────────── laws ─────────────────────────

/// Text without escape characters is as wide as it is long.
pub proof fn law_plain_text_width(s: Seq<char>)
    requires
        forall|i: int| 0 <= i < s.len() ==> #[trigger] s[i] != '\x1b',
    ensures
        visible_width_of(s) == s.len(),
    decreases s.len(),
{
    if s.len() > 0 {
        assert forall|i: int| 0 <= i < s.drop_first().len() implies #[trigger] s.drop_first()[i] != '\x1b' by {
            assert(s.drop_first()[i] == s[i + 1]);
        }
        law_plain_text_width(s.drop_first());
    }
}

/// The number of line breaks in `s`.
pub open spec fn breaks(s: Seq<char>) -> nat
    decreases s.len(),
{
    if s.len() == 0 {
        0
    } else {
        breaks(s.drop_last()) + if s.last() == '\n' { 1nat } else { 0nat }
    }
}

proof fn lemma_breaks_concat(a: Seq<char>, b: Seq<char>)
    ensures
        breaks(a + b) == breaks(a) + breaks(b),
    decreases b.len(),
{
    if b.len() == 0 {
        assert(a + b == a);
    } else {
        lemma_breaks_concat(a, b.drop_last());
        assert((a + b).drop_last() == a + b.drop_last());
    }
}

proof fn lemma_no_breaks(s: Seq<char>)
    requires
        forall|i: int| 0 <= i < s.len() ==> #[trigger] s[i] != '\n',
    ensures
        breaks(s) == 0,
    decreases s.len(),
{
    if s.len() > 0 {
        lemma_no_breaks(s.drop_last());
    }
}

/// Lines free of line breaks.
pub open spec fn unbroken(ls: Seq<Seq<char>>) -> bool {
    forall|k: int, i: int| 0 <= k < ls.len() && 0 <= i < ls[k].len() ==> #[trigger] ls[k][i] != '\n'
}

/// The side-by-side layout has one line for each line of the longer
/// column (where the lines themselves hold no line breaks).
pub proof fn law_layout_line_count(left: Seq<Seq<char>>, right: Seq<Seq<char>>, gap: nat)
    requires
        unbroken(left),
        unbroken(right),
    ensures
        breaks(layout(left, right, gap)) == if left.len() > right.len() { left.len() } else { right.len() },
{
    let n = if left.len() > right.len() { left.len() } else { right.len() };
    lemma_layout_lines_breaks(left, right, gap, max_width(left), n);
}

proof fn lemma_layout_lines_breaks(left: Seq<Seq<char>>, right: Seq<Seq<char>>, gap: nat, lw: nat, n: nat)
    requires
        unbroken(left),
        unbroken(right),
    ensures
        breaks(layout_lines(left, right, gap, lw, n)) == n,
    decreases n,
{
    if n > 0 {
        lemma_layout_lines_breaks(left, right, gap, lw, (n - 1) as nat);
        let i = n - 1;
        let l = if i < left.len() { left[i] } else { Seq::<char>::empty() };
        let head = if l.len() > 0 {
            l + ansi_reset() + spaces((lw - visible_width_of(l)) as nat)
        } else {
            spaces(lw)
        };
        let r = if i < right.len() { right[i] } else { Seq::<char>::empty() };
        let body = head + spaces(gap) + r;
        assert forall|j: int| 0 <= j < body.len() implies #[trigger] body[j] != '\n' by {
            if j < head.len() {
                if l.len() > 0 {
                    if j < l.len() {
                        assert(head[j] == l[j]);
                        assert(left[i][j] != '\n');
                    } else if j < l.len() + 4 {
                        assert(head[j] == ansi_reset()[j - l.len()]);
                    } else {
                        assert(head[j] == spaces((lw - visible_width_of(l)) as nat)[j - l.len() - 4]);
                    }
                }
            } else if j < head.len() + gap {
                assert(body[j] == spaces(gap)[j - head.len()]);
            } else {
                assert(body[j] == r[j - head.len() - gap]);
                assert(right[i][j - head.len() - gap] != '\n');
            }
        }
        lemma_no_breaks(body);
        lemma_breaks_concat(body, seq!['\n']);
        assert(layout_line(left, right, gap, lw, i) == body + seq!['\n']);
        lemma_breaks_concat(layout_lines(left, right, gap, lw, (n - 1) as nat), body + seq!['\n']);
        assert(breaks(seq!['\n']) == 1) by {
            let nl = seq!['\n'];
            assert(nl.len() == 1 && nl.last() == '\n');
            assert(nl.drop_last() =~= Seq::<char>::empty());
            assert(breaks(nl.drop_last()) == 0);
        }
    }
}

/// A width given on the command line is the picture's width, whatever the
/// terminal's width.
pub proof fn law_chafa_given_width(term_cols: usize, w: u32)
    ensures
        chafa_width(term_cols, Some(w)) == w,
{
}

/// Without a given width the picture takes a third of the terminal's
/// columns (rounded down), but never fewer than 20.
pub proof fn law_chafa_auto_width(term_cols: usize)
    requires
        term_cols / 3 <= u32::MAX,
    ensures
        term_cols / 3 >= 20 ==> chafa_width(term_cols, None) as int == term_cols as int / 3,
        term_cols / 3 < 20 ==> chafa_width(term_cols, None) == 20,
{
}

/// With a crop width the picture keeps the crop's aspect ratio: its height
/// is the even number at or just below `width * crop_height / crop_width`;
/// without one it is twice as high as wide.
pub proof fn law_chafa_height(width: u32, crop_width: u32, crop_height: u32)
    ensures
        crop_width > 0 && (width as int * crop_height as int) / (crop_width as int) <= u32::MAX ==> {
            let h = chafa_height(width, crop_width, crop_height) as int;
            let exact = (width as int * crop_height as int) / (crop_width as int);
            &&& h % 2 == 0
            &&& h <= exact
            &&& exact < h + 2
        },
        crop_width == 0 && width as int * 2 <= u32::MAX ==> chafa_height(width, crop_width, crop_height)
            as int == 2 * width as int,
{
    if crop_width > 0 {
        let exact = (width as int * crop_height as int) / (crop_width as int);
        if exact <= u32::MAX {
            assert(0 <= (width as int * crop_height as int) / (crop_width as int)) by (nonlinear_arith)
                requires
                    crop_width > 0,
            ;
            assert(exact / 2 * 2 <= exact && exact < exact / 2 * 2 + 2 && (exact / 2 * 2) % 2 == 0) by (nonlinear_arith)
                requires exact >= 0;
        }
    }
}

} // verus!
