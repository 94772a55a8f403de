//! File paths: which overlay files may be removed, and what a path tells of an
//! image.

use std::path::Path;
use vstd::prelude::*;
use vstd::string::*;
use crate::text;

verus! {

/// Whether `c` separates the segments of a path on some platform.
pub open spec fn is_separator(c: char) -> bool {
    c == '/' || c == '\\'
}

/// Whether `path` begins with two separators, which name a share or a device on
/// some platforms.
pub open spec fn begins_like_a_share(path: Seq<char>) -> bool {
    path.len() > 1 && is_separator(path[0]) && is_separator(path[1])
}

/// Whether `path`, which begins like a share, leads to a file below it: the
/// segments of a server, which is no device, and of a share end before its last
/// one.
pub open spec fn leads_below_a_share(path: Seq<char>) -> bool {
    &&& path.len() > 2
    &&& path[2] != '?'
    &&& path[2] != '.'
    &&& !is_separator(path[2])
    &&& !is_separator(path.last())
    &&& path.last() != '.'
    &&& exists|i: int, k: int, j: int|
        2 < i < k < j < path.len() && is_separator(#[trigger] path[i]) && !is_separator(
            #[trigger] path[k],
        ) && is_separator(#[trigger] path[j])
}

/// Whether a share that `path` may begin with takes nothing from its end.
pub open spec fn ends_outside_a_share(path: Seq<char>) -> bool {
    begins_like_a_share(path) ==> leads_below_a_share(path)
}

/// Whether `path` reads alike on every platform: it has no character that is a
/// separator, or part of a drive, on some platforms only, and ends outside a
/// share.
pub open spec fn is_portable(path: Seq<char>) -> bool {
    &&& !path.contains('\\')
    &&& !path.contains(':')
    &&& ends_outside_a_share(path)
}

/// Whether `path` has the shape of an overlay's file name.
pub open spec fn has_overlay_shape(path: Seq<char>) -> bool {
    text::begins_with(path, ".overlay-"@) && text::finishes_with(path, ".png"@)
}

/// The text of `path` behind its last slash.
pub open spec fn last_segment(path: Seq<char>) -> Seq<char>
    decreases path.len(),
{
    if path.len() == 0 || path.last() == '/' {
        Seq::empty()
    } else {
        last_segment(path.drop_last()).push(path.last())
    }
}

/// `path` without the slashes at its end and without the segments `.` at its
/// end that stand behind others.
pub open spec fn without_end(path: Seq<char>) -> Seq<char>
    decreases path.len(),
{
    if path.len() > 0 && path.last() == '/' {
        without_end(path.drop_last())
    } else if path.len() > 1 && last_segment(path) == seq!['.'] {
        without_end(path.drop_last())
    } else {
        path
    }
}

/// The name of the file that `path` leads to: its last segment, except for
/// those that count for nothing. There is none where the path ends in `..`, and
/// none where nothing or only the folder `.` is left.
pub open spec fn final_name(path: Seq<char>) -> Option<Seq<char>> {
    let p = without_end(path);
    if p.len() == 0 || last_segment(p) == seq!['.'] || last_segment(p) == seq!['.', '.'] {
        None
    } else {
        Some(last_segment(p))
    }
}

/// Whether a name may begin behind `c` on some platform: behind a separator or
/// behind a drive.
pub open spec fn is_mark(c: char) -> bool {
    is_separator(c) || c == ':'
}

/// Whether `path` ends in the name of a file on every platform, though not in
/// the same one.
pub open spec fn ends_in_a_name(path: Seq<char>) -> bool {
    &&& path.len() > 0
    &&& !is_mark(path.last())
    &&& path.last() != '.'
    &&& ends_outside_a_share(path)
}

/// Whether `name` is `path` from its start or from behind a mark on.
pub open spec fn is_end_of(path: Seq<char>, name: Seq<char>) -> bool {
    exists|k: int|
        0 <= k < path.len() && (k == 0 || is_mark(path[k - 1])) && name == #[trigger] path.skip(k)
}

/// Whether `name` may be the name of the file that `path` leads to. Of a
/// portable path it is one name; of another one that ends in a name, where that name
/// begins rests on the platform.
pub open spec fn may_be_named(path: Seq<char>, name: Option<Seq<char>>) -> bool {
    &&& is_portable(path) ==> name == final_name(path)
    &&& ends_in_a_name(path) ==> name is Some && is_end_of(path, name->0)
}

/// The position of the last dot in `s`; -1 where there is none.
pub open spec fn last_dot(s: Seq<char>) -> int
    decreases s.len(),
{
    if s.len() == 0 {
        -1
    } else if s.last() == '.' {
        s.len() - 1
    } else {
        last_dot(s.drop_last())
    }
}

/// The extension of the file name `name`: what stands behind its last dot. A
/// dot at its start begins no extension.
pub open spec fn name_extension(name: Seq<char>) -> Option<Seq<char>> {
    if last_dot(name) > 0 {
        Some(name.skip(last_dot(name) + 1))
    } else {
        None
    }
}

/// The extension of the file that the portable path `path` leads to.
pub open spec fn plain_extension(path: Seq<char>) -> Option<Seq<char>> {
    match final_name(path) {
        Some(name) => name_extension(name),
        None => None,
    }
}

/// Whether what stands behind the last dot of `path` is the extension of its
/// file on every platform: no mark stands there nor right before the dot, and
/// the path ends outside a share and not in `..`.
pub open spec fn has_sure_extension(path: Seq<char>) -> bool {
    let dot = last_dot(path);
    &&& dot > 0
    &&& !is_mark(path[dot - 1])
    &&& !(path[dot - 1] == '.' && dot == path.len() - 1)
    &&& forall|i: int| dot < i < path.len() ==> !is_mark(#[trigger] path[i])
    &&& ends_outside_a_share(path)
}

/// Whether `ext` stands in `path` behind a dot.
pub open spec fn stands_behind_a_dot(path: Seq<char>, ext: Seq<char>) -> bool {
    exists|i: int, j: int|
        0 < i <= j <= path.len() && path[i - 1] == '.' && ext == #[trigger] path.subrange(i, j)
}

/// Whether `ext` may be the extension of the file that `path` leads to. It is
/// one extension where the path is portable or has a sure one; otherwise it
/// rests on the platform, and is some text of the path behind a dot, or none.
pub open spec fn may_extend(path: Seq<char>, ext: Option<Seq<char>>) -> bool {
    &&& is_portable(path) ==> ext == plain_extension(path)
    &&& has_sure_extension(path) ==> ext == Some(path.skip(last_dot(path) + 1))
    &&& ext matches Some(e) ==> stands_behind_a_dot(path, e)
}

/// The MIME type that `mime_guess` finds first for the extension `ext`, or
/// `application/octet-stream`.
pub uninterp spec fn extension_mime(ext: Seq<char>) -> Seq<char>;

/// The MIME type of a file with the extension `ext`.
pub open spec fn mime_of(ext: Option<Seq<char>>) -> Seq<char> {
    match ext {
        Some(ext) => extension_mime(ext),
        None => "application/octet-stream"@,
    }
}

/// Whether `mime` is the type of the file that `path` leads to, as far as its
/// extension is one on every platform.
pub open spec fn is_type_of(path: Seq<char>, mime: Seq<char>) -> bool {
    exists|ext: Option<Seq<char>>| may_extend(path, ext) && mime == #[trigger] mime_of(ext)
}

/// Calls `std::path::Path::components` and counts. Trusted: a path without
/// separators that is not empty and names no drive is one component; a path
/// that has a slash between a first character that is no separator and a last
/// character that is neither a separator nor a dot has two or more. Whether a
/// backslash separates components rests on the platform and is left unsaid.
#[verifier::external_body]
fn component_count(path: &str) -> (n: usize)
    ensures
        path@.len() > 0 && !path@.contains('/') && !path@.contains('\\') && !(path@.len() > 1
            && path@[1] == ':') ==> n == 1,
        path@.contains('/') && path@[0] != '/' && path@[0] != '\\' && path@.last() != '/'
            && path@.last() != '\\' && path@.last() != '.' ==> n >= 2,
{
    Path::new(path).components().count()
}

/// Calls `std::path::Path::file_name`. Trusted: of a portable path it is the
/// name of the file that the path leads to. Another path that ends in neither a
/// separator, a colon nor a dot, and outside a share, has a file name too, the
/// end of the path from its start, a separator or a colon on; from which one
/// rests on the platform. Of what is left nothing is said.
#[verifier::external_body]
pub(crate) fn path_file_name(path: &str) -> (r: Option<String>)
    ensures
        may_be_named(path@, text::opt_view(r)),
{
    Path::new(path).file_name().and_then(|n| n.to_str()).map(|n| n.to_string())
}

/// Calls `mime_guess::from_path` and `MimeGuess::first_or_octet_stream`.
/// Trusted: the type depends on the extension of the path alone, which
/// `std::path::Path::extension` finds, and is `application/octet-stream` where
/// there is none; and no type that the crate knows has a comma. The extension
/// is what stands behind the last dot of the file name, unless that dot is the
/// first character. It is said exactly for portable paths, and for those whose
/// last dot begins an extension whatever separates their segments. Of others
/// only that it stands in the path behind a dot.
#[verifier::external_body]
fn guess_mime(path: &str) -> (r: String)
    ensures
        is_type_of(path@, r@),
        has_sure_extension(path@) ==> r@ == extension_mime(path@.skip(last_dot(path@) + 1)),
        !r@.contains(','),
{
    mime_guess::from_path(path).first_or_octet_stream().to_string()
}

/// Whether a path of `components` components that reads `path` is an overlay
/// file directly in the folder of its board.
pub fn is_overlay_name(path: &str, components: usize) -> (b: bool)
    ensures
        b == (components == 1 && has_overlay_shape(path@)),
{
    components == 1 && text::starts_with(path, ".overlay-") && text::ends_with(path, ".png")
}

/// Whether `path` is an overlay file directly in the folder of its board. Such
/// a path never leads out of the folder: it has no slash.
pub fn is_overlay_temp_path(path: &str) -> (b: bool)
    ensures
        b ==> has_overlay_shape(path@) && !path@.contains('/'),
        !path@.contains('\\') ==> b == (has_overlay_shape(path@) && !path@.contains('/')),
{
    let b = is_overlay_name(path, component_count(path));
    proof {
        if has_overlay_shape(path@) {
            overlay_shape_ends(path@);
        }
    }
    b
}

/// What is to become of an overlay once its turn is over.
#[derive(Debug)]
pub struct OverlayCleanup {
    pub path: String,
    /// Whether the file is removed; otherwise its path is not safe to remove.
    pub remove: bool,
}

/// Decides for each of `overlays` whether its file is removed.
pub fn cleanup_overlay_paths(overlays: &Vec<String>) -> (r: Vec<OverlayCleanup>)
    ensures
        r@.len() == overlays@.len(),
        forall|i: int|
            0 <= i < r@.len() ==> {
                let path = overlays@[i]@;
                &&& (#[trigger] r@[i]).path@ == path
                &&& r@[i].remove ==> has_overlay_shape(path) && !path.contains('/')
                &&& !path.contains('\\') ==> r@[i].remove == (has_overlay_shape(path)
                    && !path.contains('/'))
            },
{
    let mut out: Vec<OverlayCleanup> = Vec::new();
    let mut i: usize = 0;
    while i < overlays.len()
        invariant
            i <= overlays@.len(),
            out@.len() == i,
            forall|k: int|
                0 <= k < i ==> {
                    let path = overlays@[k]@;
                    &&& (#[trigger] out@[k]).path@ == path
                    &&& out@[k].remove ==> has_overlay_shape(path) && !path.contains('/')
                    &&& !path.contains('\\') ==> out@[k].remove == (has_overlay_shape(path)
                        && !path.contains('/'))
                },
        decreases overlays@.len() - i,
    {
        let remove = is_overlay_temp_path(overlays[i].as_str());
        out.push(OverlayCleanup { path: overlays[i].clone(), remove });
        i = i + 1;
    }
    out
}

/// The name under which a request sends a file with the name `name`.
pub open spec fn shown_name(name: Option<Seq<char>>) -> Seq<char> {
    match name {
        Some(n) => n,
        None => "image.png"@,
    }
}

/// The name under which a request sends a file with the name `name`.
pub fn sent_name(name: Option<String>) -> (r: String)
    ensures
        r@ == shown_name(text::opt_view(name)),
{
    match name {
        Some(n) => n,
        None => "image.png".to_owned(),
    }
}

/// Whether `shown` is the name under which a request sends the file at `path`.
pub open spec fn is_sent_name(path: Seq<char>, shown: Seq<char>) -> bool {
    exists|name: Option<Seq<char>>| may_be_named(path, name) && shown == #[trigger] shown_name(name)
}

/// The MIME type under which a request sends the file at `path`.
pub fn sent_mime(path: &str) -> (r: String)
    ensures
        is_type_of(path@, r@),
        is_portable(path@) ==> r@ == mime_of(plain_extension(path@)),
        has_sure_extension(path@) ==> r@ == extension_mime(path@.skip(last_dot(path@) + 1)),
        !r@.contains(','),
{
    guess_mime(path)
}

/// The ends of a path with the shape of an overlay's file name.
proof fn overlay_shape_ends(path: Seq<char>)
    requires
        has_overlay_shape(path),
    ensures
        path.len() > 1,
        path[0] == '.',
        path[1] == 'o',
        path.last() == 'g',
{
    reveal_strlit(".overlay-");
    reveal_strlit(".png");
    assert(path.subrange(0, 9)[0] == path[0]);
    assert(path.subrange(0, 9)[1] == path[1]);
    assert(path.subrange(path.len() - 4, path.len() as int)[3] == path[path.len() - 1]);
}

/// What is said of the names and of the extensions of paths fits together:
/// every path may have some name or none, and some extension or none.
pub proof fn paths_have_names_and_extensions(path: Seq<char>)
    ensures
        exists|name: Option<Seq<char>>| may_be_named(path, name),
        exists|ext: Option<Seq<char>>| may_extend(path, ext),
{
    let name = if is_portable(path) {
        final_name(path)
    } else {
        Some(path)
    };
    assert(may_be_named(path, name)) by {
        if ends_in_a_name(path) {
            if is_portable(path) {
                plain_name_ends_the_path(path);
            } else {
                assert(path.skip(0) =~= path);
            }
        }
    }
    let ext = if is_portable(path) {
        plain_extension(path)
    } else if has_sure_extension(path) {
        Some(path.skip(last_dot(path) + 1))
    } else {
        None
    };
    assert(may_extend(path, ext)) by {
        if is_portable(path) {
            plain_extension_is_in_the_path(path);
        }
        if has_sure_extension(path) {
            last_dot_is_last(path);
            let dot = last_dot(path);
            assert(path.skip(dot + 1) =~= path.subrange(dot + 1, path.len() as int));
            if is_portable(path) {
                sure_extension_is_plain(path);
            }
        }
    }
}

/// Where the last segment of `path` begins.
proof fn last_segment_start(path: Seq<char>) -> (k: int)
    ensures
        0 <= k <= path.len(),
        k == 0 || path[k - 1] == '/',
        last_segment(path) == path.skip(k),
        forall|i: int| k <= i < path.len() ==> path[i] != '/',
    decreases path.len(),
{
    if path.len() == 0 || path.last() == '/' {
        assert(path.skip(path.len() as int) =~= Seq::empty());
        path.len() as int
    } else {
        let front = path.drop_last();
        let k = last_segment_start(front);
        assert(path.skip(k) =~= front.skip(k).push(path.last()));
        assert forall|i: int| k <= i < path.len() implies path[i] != '/' by {
            if i < front.len() {
                assert(front[i] == path[i]);
            }
        }
        k
    }
}

/// How much of `path` stands before the end that counts for nothing.
proof fn without_end_is_a_prefix(path: Seq<char>) -> (m: int)
    ensures
        0 <= m <= path.len(),
        without_end(path) == path.take(m),
    decreases path.len(),
{
    if path.len() > 0 && path.last() == '/' || path.len() > 1 && last_segment(path) == seq!['.'] {
        let m = without_end_is_a_prefix(path.drop_last());
        assert(path.take(m) =~= path.drop_last().take(m));
        m
    } else {
        assert(path.take(path.len() as int) =~= path);
        path.len() as int
    }
}

/// A path that ends in neither a slash nor a dot has no end that counts for
/// nothing.
proof fn nothing_to_leave_out(path: Seq<char>)
    requires
        path.len() > 0,
        path.last() != '/',
        path.last() != '.',
    ensures
        without_end(path) == path,
{
    let k = last_segment_start(path);
    assert(path.skip(k).last() == path.last());
}

proof fn last_dot_is_last(s: Seq<char>)
    ensures
        -1 <= last_dot(s) < s.len(),
        last_dot(s) >= 0 ==> s[last_dot(s)] == '.',
        forall|i: int| last_dot(s) < i < s.len() ==> s[i] != '.',
    decreases s.len(),
{
    if s.len() > 0 && s.last() != '.' {
        let front = s.drop_last();
        last_dot_is_last(front);
        assert forall|i: int| last_dot(s) < i < s.len() implies s[i] != '.' by {
            if i < front.len() {
                assert(front[i] == s[i]);
            }
        }
    }
}

proof fn plain_name_ends_the_path(path: Seq<char>)
    requires
        ends_in_a_name(path),
    ensures
        final_name(path) is Some,
        is_end_of(path, final_name(path)->0),
{
    nothing_to_leave_out(path);
    let k = last_segment_start(path);
    assert(path.skip(k).last() == path.last());
}

proof fn plain_extension_is_in_the_path(path: Seq<char>)
    ensures
        plain_extension(path) matches Some(e) ==> stands_behind_a_dot(path, e),
{
    let m = without_end_is_a_prefix(path);
    let k = last_segment_start(path.take(m));
    let name = path.take(m).skip(k);
    last_dot_is_last(name);
    if plain_extension(path) is Some {
        let dot = last_dot(name);
        assert(name.skip(dot + 1) =~= path.subrange(k + dot + 1, m));
        assert(path[k + dot] == '.');
    }
}

proof fn sure_extension_is_plain(path: Seq<char>)
    requires
        has_sure_extension(path),
    ensures
        plain_extension(path) == Some(path.skip(last_dot(path) + 1)),
{
    let dot = last_dot(path);
    let k = last_segment_start(path);
    let name = path.skip(k);
    last_dot_is_last(path);
    last_dot_is_last(name);
    assert(k < dot) by {
        if k >= dot {
            assert(is_mark(path[k - 1]));
        }
    }
    assert(last_segment(path).len() > 1);
    assert(without_end(path) == path);
    assert(name[dot - k] == '.');
    assert(last_dot(name) == dot - k) by {
        if last_dot(name) > dot - k {
            assert(path[last_dot(name) + k] == '.');
        }
    }
    assert(name != seq!['.', '.']) by {
        if name == seq!['.', '.'] {
            assert(name[0] == '.' && dot - k == 1);
        }
    }
    assert(name.skip(dot - k + 1) =~= path.skip(dot + 1));
}

/// An overlay's file name is `.overlay-`, any text, and `.png`.
pub proof fn overlay_names_have_a_head_and_a_tail(path: Seq<char>, middle: Seq<char>)
    ensures
        has_overlay_shape(".overlay-"@ + middle + ".png"@),
        has_overlay_shape(path) ==> exists|middle: Seq<char>| path == #[trigger] (".overlay-"@
            + middle + ".png"@),
{
    reveal_strlit(".overlay-");
    reveal_strlit(".png");
    let made = ".overlay-"@ + middle + ".png"@;
    assert(made.subrange(0, 9) =~= ".overlay-"@);
    assert(made.subrange(made.len() - 4, made.len() as int) =~= ".png"@);
    if has_overlay_shape(path) {
        let head = path.subrange(0, 9);
        let tail = path.subrange(path.len() - 4, path.len() as int);
        assert(head =~= ".overlay-"@ && tail =~= ".png"@);
        assert(path.len() >= 13) by {
            if path.len() == 9 {
                assert(head[8] == tail[3]);
            } else if path.len() == 10 {
                assert(head[8] == tail[2]);
            } else if path.len() == 11 {
                assert(head[8] == tail[1]);
            } else if path.len() == 12 {
                assert(head[8] == tail[0]);
            }
        }
        let inner = path.subrange(9, path.len() - 4);
        assert(path =~= head + inner + tail);
        assert(path == ".overlay-"@ + inner + ".png"@);
    }
}

/// A file that has no name is sent as `image.png`; any other keeps its name.
pub proof fn nameless_files_are_sent_as_images(name: Seq<char>)
    ensures
        shown_name(None) == "image.png"@,
        shown_name(Some(name)) == name,
        mime_of(None) == "application/octet-stream"@,
{
}

}
