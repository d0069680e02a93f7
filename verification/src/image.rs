//! Cropping with ImageMagick: which command runs and with which arguments.
use vstd::prelude::*;
use crate::runner::owned;
use crate::text::{numeral, push_char, push_numeral, views};

verus! {

/// `"{w}x{h}"`.
pub open spec fn geometry(w: u32, h: u32) -> Seq<char> {
    numeral(w as nat, 10) + seq!['x'] + numeral(h as nat, 10)
}

/// The arguments that crop `input` in place to `w` x `h`: resize to fill
/// the box, then centre and cut (`input -resize WxH^ -gravity center
/// -extent WxH input`).
pub open spec fn crop_arg_list(input: Seq<char>, w: u32, h: u32) -> Seq<Seq<char>> {
    seq![
        input,
        "-resize"@,
        geometry(w, h) + seq!['^'],
        "-gravity"@,
        "center"@,
        "-extent"@,
        geometry(w, h),
        input,
    ]
}

fn geometry_string(w: u32, h: u32) -> (s: String)
    ensures
        s@ == geometry(w, h),
{
    let mut s = String::new();
    push_numeral(&mut s, w as u128, 10);
    push_char(&mut s, 'x');
    push_numeral(&mut s, h as u128, 10);
    assert(s@ =~= geometry(w, h));
    s
}

/// The ImageMagick arguments that crop the image at `input_path` to
/// `width` x `height`, writing it back in place.
pub fn crop_args(input_path: &str, width: u32, height: u32) -> (r: Vec<String>)
    ensures
        views(r@) == crop_arg_list(input_path@, width, height),
{
    let mut resize = geometry_string(width, height);
    push_char(&mut resize, '^');
    assert(resize@ =~= geometry(width, height) + seq!['^']);
    let extent = geometry_string(width, height);
    let mut v: Vec<String> = Vec::new();
    v.push(owned(input_path));
    v.push(owned("-resize"));
    v.push(resize);
    v.push(owned("-gravity"));
    v.push(owned("center"));
    v.push(owned("-extent"));
    v.push(extent);
    v.push(owned(input_path));
    assert(views(v@) =~= crop_arg_list(input_path@, width, height));
    v
}

/// Find an available ImageMagick command, given whether `magick`
/// (ImageMagick 7) and `convert` (ImageMagick 6) run: `magick` first, then
/// `convert`; none where neither runs.
pub fn imagemagick_command(magick_runs: bool, convert_runs: bool) -> (r: Option<String>)
    ensures
        magick_runs ==> (r matches Some(c) && c@ == "magick"@),
        !magick_runs && convert_runs ==> (r matches Some(c) && c@ == "convert"@),
        !magick_runs && !convert_runs ==> r is None,
{
    if magick_runs {
        Some(owned("magick"))
    } else if convert_runs {
        Some(owned("convert"))
    } else {
        None
    }
}

} // verus!
