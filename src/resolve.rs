//! Choosing the representation of an emote and the address and file name it
//! is stored under.
//!
//! Policy: the animated `4x.gif` variant when the catalog lists it, else the
//! static `4x.png`, else the extension of the last listed variant (`png` when
//! the list is empty or that name has no extension). The download address is
//! always the CDN template `https://cdn.7tv.app/emote/<id>/4x.<extension>`.
use vstd::prelude::*;
use vstd::string::*;
use crate::catalog::{CatalogEntry, FileVariant};
use crate::names::{sanitize_filename, sanitized};

verus! {

pub const ANIMATED_VARIANT: &'static str = "4x.gif";

pub const STATIC_VARIANT: &'static str = "4x.png";

pub const DEFAULT_EXTENSION: &'static str = "png";

pub const CDN_BASE: &'static str = "https://cdn.7tv.app/emote/";

pub const CDN_SIZE: &'static str = "/4x.";

/// Where an emote is fetched from and the file it is saved as.
pub struct ResolvedAsset {
    pub download_url: String,
    pub file_name: String,
    pub extension: String,
}

/// The view of a resolved asset: address, file name, extension.
pub ghost struct AssetView {
    pub download_url: Seq<char>,
    pub file_name: Seq<char>,
    pub extension: Seq<char>,
}

impl View for ResolvedAsset {
    type V = AssetView;

    open spec fn view(&self) -> AssetView {
        AssetView {
            download_url: self.download_url@,
            file_name: self.file_name@,
            extension: self.extension@,
        }
    }
}

pub open spec fn variant_names(files: Seq<FileVariant>) -> Seq<Seq<char>> {
    files.map_values(|f: FileVariant| f.name@)
}

/// The position of the last `c` in `s`, or -1.
pub open spec fn last_index_of(s: Seq<char>, c: char) -> int
    decreases s.len(),
{
    if s.len() == 0 {
        -1
    } else if s.last() == c {
        s.len() - 1
    } else {
        last_index_of(s.drop_last(), c)
    }
}

/// The extension of a file name: what follows its last dot, where that dot is
/// not the first character; `png` otherwise.
pub open spec fn extension_of(name: Seq<char>) -> Seq<char> {
    let p = last_index_of(name, '.');
    if p > 0 {
        name.subrange(p + 1, name.len() as int)
    } else {
        DEFAULT_EXTENSION@
    }
}

/// The extension chosen for an emote whose variants have the names `names`.
pub open spec fn chosen_extension(names: Seq<Seq<char>>) -> Seq<char> {
    if names.contains(ANIMATED_VARIANT@) {
        "gif"@
    } else if names.contains(STATIC_VARIANT@) {
        "png"@
    } else if names.len() > 0 {
        extension_of(names.last())
    } else {
        DEFAULT_EXTENSION@
    }
}

/// What an entry resolves to: a function of its id, name and variant names.
pub open spec fn resolved(id: Seq<char>, name: Seq<char>, names: Seq<Seq<char>>) -> AssetView {
    let ext = chosen_extension(names);
    AssetView {
        download_url: CDN_BASE@ + id + CDN_SIZE@ + ext,
        file_name: sanitized(name) + seq!['.'] + ext,
        extension: ext,
    }
}

pub open spec fn resolved_entry(e: CatalogEntry) -> AssetView {
    resolved(e.id@, e.name@, variant_names(e.files@))
}

/// Whether some variant of `files` is named `target`.
fn has_variant(files: &Vec<FileVariant>, target: &String) -> (r: bool)
    ensures
        r == variant_names(files@).contains(target@),
{
    let mut i: usize = 0;
    while i < files.len()
        invariant
            i <= files@.len(),
            forall|j: int| 0 <= j < i ==> variant_names(files@)[j] != target@,
        decreases files.len() - i,
    {
        if files[i].name == *target {
            assert(variant_names(files@)[i as int] == target@);
            return true;
        }
        i = i + 1;
    }
    false
}

/// The extension of the file name `name`, as `extension_of` states it.
pub fn file_extension(name: &str) -> (r: String)
    ensures
        r@ == extension_of(name@),
{
    let n = name.unicode_len();
    let mut i: usize = n;
    assert(name@.subrange(0, n as int) =~= name@);
    while i > 0 && name.get_char(i - 1) != '.'
        invariant
            i <= n == name@.len(),
            last_index_of(name@, '.') == last_index_of(name@.subrange(0, i as int), '.'),
        decreases i,
    {
        let ghost t = name@.subrange(0, i as int);
        assert(t.drop_last() =~= name@.subrange(0, i - 1));
        i = i - 1;
    }
    if i > 1 {
        let ghost t = name@.subrange(0, i as int);
        assert(t.last() == '.');
        name.substring_char(i, n).to_owned()
    } else {
        proof {
            if i == 1 {
                let t = name@.subrange(0, 1);
                assert(t.last() == '.');
            }
        }
        String::from_str(DEFAULT_EXTENSION)
    }
}

/// Resolves a catalog entry to its download address and local file name.
pub fn resolve(entry: &CatalogEntry) -> (r: ResolvedAsset)
    ensures
        r@ == resolved_entry(*entry),
{
    let gif = String::from_str(ANIMATED_VARIANT);
    let png = String::from_str(STATIC_VARIANT);
    let ext = if has_variant(&entry.files, &gif) {
        String::from_str("gif")
    } else if has_variant(&entry.files, &png) {
        String::from_str("png")
    } else if entry.files.len() > 0 {
        file_extension(entry.files[entry.files.len() - 1].name.as_str())
    } else {
        String::from_str(DEFAULT_EXTENSION)
    };
    let ghost names = variant_names(entry.files@);
    assert(names.len() > 0 ==> names.last() == entry.files@[entry.files@.len() - 1].name@);
    assert(ext@ == chosen_extension(names));
    let mut url = String::from_str(CDN_BASE);
    url.append(entry.id.as_str());
    url.append(CDN_SIZE);
    url.append(ext.as_str());
    let mut file_name = sanitize_filename(entry.name.as_str());
    file_name.append(".");
    file_name.append(ext.as_str());
    proof {
        reveal_strlit(".");
        assert("."@ =~= seq!['.']);
    }
    assert(url@ == CDN_BASE@ + entry.id@ + CDN_SIZE@ + ext@);
    assert(file_name@ == sanitized(entry.name@) + seq!['.'] + ext@);
    ResolvedAsset { download_url: url, file_name, extension: ext }
}

/// Resolution is deterministic: entries that agree on id, name and variant
/// names resolve to the same address, file name and extension.
pub proof fn lemma_resolution_deterministic(a: CatalogEntry, b: CatalogEntry)
    requires
        a.id@ == b.id@,
        a.name@ == b.name@,
        variant_names(a.files@) == variant_names(b.files@),
    ensures
        resolved_entry(a) == resolved_entry(b),
{
}

} // verus!
