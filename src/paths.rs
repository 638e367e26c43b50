use vstd::prelude::*;

verus! {

/// The extension that marks a directory as a bundle: an application package
/// that is synchronized as one indivisible unit.
pub const BUNDLE_EXTENSION: &'static str = "app";

/// The path of `entry` relative to `base`: what follows `base` and the one
/// separator after it. There is none when `entry` does not begin with `base`,
/// or when the character after `base` takes more than one byte (the separator
/// is dropped as one byte, and what would remain is not text).
pub open spec fn relative_path(base: Seq<char>, entry: Seq<char>) -> Option<Seq<char>> {
    if base.len() <= entry.len() && entry.subrange(0, base.len() as int) == base {
        if entry.len() == base.len() {
            Some(Seq::<char>::empty())
        } else if (entry[base.len() as int] as u32) < 128 {
            Some(entry.subrange(base.len() as int + 1, entry.len() as int))
        } else {
            None
        }
    } else {
        None
    }
}

/// Extracts the path of `entry_path` relative to `base_path`, as in
/// `trim_base_path("/some/path", "/some/path/to/entry") == Some("to/entry")`.
pub fn trim_base_path(base_path: &str, entry_path: &str) -> (r: Option<String>)
    ensures
        match r {
            Some(s) => relative_path(base_path@, entry_path@) == Some(s@),
            None => relative_path(base_path@, entry_path@) is None,
        },
{
    let base_len = base_path.unicode_len();
    let entry_len = entry_path.unicode_len();
    if entry_len < base_len {
        return None;
    }
    let head = entry_path.substring_char(0, base_len).to_owned();
    let base = base_path.to_owned();
    if !(head == base) {
        return None;
    }
    if entry_len == base_len {
        return Some(String::new());
    }
    let separator = entry_path.get_char(base_len);
    if (separator as u32) >= 128 {
        return None;
    }
    Some(entry_path.substring_char(base_len + 1, entry_len).to_owned())
}

/// The extension of a path's final component, as `std::path::Path` reads it.
pub uninterp spec fn extension_of(path: Seq<char>) -> Option<Seq<char>>;

/// Relies on `std::path::Path::extension`: the extension of the final
/// component, which depends on the text of the path alone.
#[verifier::external_body]
fn path_extension(path: &str) -> (r: Option<String>)
    ensures
        match r {
            Some(e) => extension_of(path@) == Some(e@),
            None => extension_of(path@) is None,
        },
{
    match std::path::Path::new(path).extension() {
        Some(e) => Some(e.to_string_lossy().into_owned()),
        None => None,
    }
}

/// The path without its final component, as `std::path::Path` reads it.
pub uninterp spec fn parent_of(path: Seq<char>) -> Option<Seq<char>>;

/// Relies on `std::path::Path::parent`: the path without its final
/// component, if it has one. Dropping a component leaves a shorter text.
#[verifier::external_body]
fn path_parent(path: &str) -> (r: Option<String>)
    ensures
        match r {
            Some(p) => parent_of(path@) == Some(p@) && p@.len() < path@.len(),
            None => parent_of(path@) is None,
        },
{
    match std::path::Path::new(path).parent() {
        Some(p) => Some(p.to_string_lossy().into_owned()),
        None => None,
    }
}

/// The path made of `rest` put under `base`, as `std::path::Path` joins them.
pub uninterp spec fn joined(base: Seq<char>, rest: Seq<char>) -> Seq<char>;

/// Relies on `std::path::Path::join`: the joined path depends on the two
/// texts alone.
#[verifier::external_body]
pub(crate) fn join_path(base: &str, rest: &str) -> (r: String)
    ensures
        r@ == joined(base@, rest@),
{
    std::path::Path::new(base).join(rest).to_string_lossy().into_owned()
}

/// Whether the final component of `path` has the extension `extension`.
pub open spec fn has_extension(path: Seq<char>, extension: Seq<char>) -> bool {
    extension_of(path) == Some(extension)
}

/// Whether a path with this name and kind is a bundle.
pub open spec fn is_bundle(path: Seq<char>, is_dir: bool) -> bool {
    has_extension(path, BUNDLE_EXTENSION@) && is_dir
}

/// Whether some ancestor of `path` carries the bundle extension.
pub open spec fn has_bundle_ancestor(path: Seq<char>) -> bool
    decreases path.len(),
{
    match parent_of(path) {
        Some(p) => if p.len() < path.len() {
            has_extension(p, BUNDLE_EXTENSION@) || has_bundle_ancestor(p)
        } else {
            false
        },
        None => false,
    }
}

/// Whether the final component of `path` has the extension `extension`.
pub fn path_has_extension(path: &str, extension: &str) -> (r: bool)
    ensures
        r == has_extension(path@, extension@),
{
    match path_extension(path) {
        Some(e) => e == extension.to_owned(),
        None => false,
    }
}

/// Whether `path`, whose kind on disk the caller has read, is a bundle: a
/// directory with the bundle extension.
pub fn is_mac_app(path: &str, is_dir: bool) -> (r: bool)
    ensures
        r == is_bundle(path@, is_dir),
{
    path_has_extension(path, BUNDLE_EXTENSION) && is_dir
}

spec fn text_len(p: Option<String>) -> nat {
    match p {
        Some(s) => s@.len() + 1,
        None => 0,
    }
}

/// Whether `path` lies inside a bundle. The ancestors of an entry that
/// exists are directories, so their names decide.
pub fn is_part_of_mac_app(path: &str) -> (r: bool)
    ensures
        r == has_bundle_ancestor(path@),
{
    let mut current = path_parent(path);
    loop
        invariant
            has_bundle_ancestor(path@) == match current {
                Some(p) => has_extension(p@, BUNDLE_EXTENSION@) || has_bundle_ancestor(p@),
                None => false,
            },
        decreases text_len(current),
    {
        match current {
            None => {
                return false;
            },
            Some(p) => {
                if path_has_extension(&p, BUNDLE_EXTENSION) {
                    return true;
                }
                current = path_parent(&p);
            },
        }
    }
}

} // verus!
