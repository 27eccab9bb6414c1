use vstd::prelude::*;
use vstd::string::StringExecFns;
use crate::paths::{starts_with, ends_with, file_name, stem_of, has_prefix, has_suffix, file_name_of, stem};

verus! {

broadcast use vstd::std_specs::vec::group_vec_axioms;

/// Some name in `names` is `k`.
pub open spec fn has_entry(names: Seq<Seq<char>>, k: Seq<char>) -> bool {
    exists|i: int| 0 <= i < names.len() && names[i] == k
}

/// Some name in `names` lies under the directory `k`: it starts with `k/`.
pub open spec fn has_under(names: Seq<Seq<char>>, k: Seq<char>) -> bool {
    exists|i: int| 0 <= i < names.len() && starts_with(names[i], k + "/"@)
}

/// `i` is the last entry named `k`.
pub open spec fn is_last_entry(es: Seq<(Seq<char>, Seq<u8>)>, k: Seq<char>, i: int) -> bool {
    &&& 0 <= i < es.len()
    &&& es[i].0 == k
    &&& forall|j: int| i < j < es.len() ==> (#[trigger] es[j]).0 != k
}

/// The file entries of an archive listing `(name, is_directory, bytes)`, in order.
pub open spec fn file_entries(raw: Seq<(String, bool, Vec<u8>)>) -> Seq<(Seq<char>, Seq<u8>)>
    decreases raw.len(),
{
    if raw.len() == 0 {
        seq![]
    } else {
        let e = raw.last();
        file_entries(raw.drop_last()) + if e.1 {
            seq![]
        } else {
            seq![(e.0@, e.2@)]
        }
    }
}

/// `base` and `rel` put together as a path: `rel` alone when it is absolute.
pub open spec fn join_spec(base: Seq<char>, rel: Seq<char>) -> Seq<char> {
    if starts_with(rel, "/"@) {
        rel
    } else if base.len() == 0 || ends_with(base, "/"@) {
        base + rel
    } else {
        base + "/"@ + rel
    }
}

/// Relies on `std::path::Path::exists`: whether the file system holds
/// something at `p`.
#[verifier::external_body]
pub(crate) fn disk_exists(p: &str) -> bool {
    std::path::Path::new(p).exists()
}

/// Relies on `std::path::Path::is_file`: whether `p` is a regular file.
#[verifier::external_body]
fn disk_is_file(p: &str) -> bool {
    std::path::Path::new(p).is_file()
}

/// Relies on `std::path::Path::is_dir`: whether `p` is a directory.
#[verifier::external_body]
pub(crate) fn disk_is_dir(p: &str) -> bool {
    std::path::Path::new(p).is_dir()
}

/// Relies on `String::from_utf8`: the bytes decoded when they are valid
/// UTF-8, nothing otherwise.
#[verifier::external_body]
fn decode_utf8(bytes: Vec<u8>) -> (r: Option<String>)
    ensures
        r matches Some(s) ==> vstd::utf8::valid_utf8(bytes@) && s@ == vstd::utf8::decode_utf8(bytes@),
        r is None ==> !vstd::utf8::valid_utf8(bytes@),
{
    String::from_utf8(bytes).ok()
}

/// Joins `rel` onto `base`.
pub fn join_path(base: &str, rel: &str) -> (r: String)
    ensures
        r@ == join_spec(base@, rel@),
{
    proof {
        reveal_strlit("/");
    }
    if has_prefix(rel, "/") {
        String::from_str(rel)
    } else if base.unicode_len() == 0 || has_suffix(base, "/") {
        String::from_str(base).concat(rel)
    } else {
        String::from_str(base).concat("/").concat(rel)
    }
}

/// A bundle: an extracted directory, queried on disk, or an archive whose
/// file entries were read into memory when it was opened.
pub struct FSContext {
    pub base_path: String,
    pub is_zip: bool,
    pub zip_entries: Vec<(String, Vec<u8>)>,
}

impl FSContext {
    /// The archive's file entries, as names and bytes (none for a directory).
    pub open spec fn entries(&self) -> Seq<(Seq<char>, Seq<u8>)> {
        self.zip_entries@.map_values(|e: (String, Vec<u8>)| (e.0@, e.1@))
    }

    /// The names of the archive's file entries.
    pub open spec fn names(&self) -> Seq<Seq<char>> {
        self.entries().map_values(|e: (Seq<char>, Seq<u8>)| e.0)
    }

    /// A bundle backed by the directory at `base_path`.
    pub fn directory(base_path: String) -> (r: FSContext)
        ensures
            r.base_path@ == base_path@,
            !r.is_zip,
            r.entries().len() == 0,
    {
        let r = FSContext { base_path, is_zip: false, zip_entries: Vec::new() };
        proof {
            assert(r.entries() =~= seq![]);
        }
        r
    }

    /// A bundle backed by the archive at `base_path`, given its listing in
    /// archive order as `(name, is_directory, bytes)`; directory entries are
    /// dropped, every other entry is kept.
    pub fn archive(base_path: String, raw: Vec<(String, bool, Vec<u8>)>) -> (r: FSContext)
        ensures
            r.base_path@ == base_path@,
            r.is_zip,
            r.entries() == file_entries(raw@),
    {
        let ghost orig = raw@;
        let mut raw = raw;
        let mut kept: Vec<(String, Vec<u8>)> = Vec::new();
        let ghost n = raw@.len();
        while raw.len() > 0
            invariant
                n == orig.len(),
                raw@.len() <= n,
                raw@ == orig.subrange(n - raw@.len(), n as int),
                kept@.map_values(|e: (String, Vec<u8>)| (e.0@, e.1@)) == file_entries(
                    orig.subrange(0, n - raw@.len()),
                ),
            decreases raw@.len(),
        {
            let ghost done = (n - raw@.len()) as int;
            let e = raw.remove(0);
            proof {
                assert(e == orig[done]);
                assert(raw@ =~= orig.subrange(done + 1, n as int));
                assert(orig.subrange(0, done + 1).drop_last() =~= orig.subrange(0, done));
            }
            let ghost before = kept@;
            if !e.1 {
                kept.push((e.0, e.2));
                proof {
                    assert(kept@.map_values(|e: (String, Vec<u8>)| (e.0@, e.1@)) =~= before.map_values(
                        |e: (String, Vec<u8>)| (e.0@, e.1@),
                    ).push((orig[done].0@, orig[done].2@)));
                }
            }
        }
        proof {
            assert(orig.subrange(0, n as int) =~= orig);
        }
        FSContext { base_path, is_zip: true, zip_entries: kept }
    }

    fn has_name(&self, rel: &str) -> (r: bool)
        ensures
            r == has_entry(self.names(), rel@),
    {
        let mut i: usize = 0;
        while i < self.zip_entries.len()
            invariant
                i <= self.zip_entries@.len(),
                forall|k: int| 0 <= k < i ==> (#[trigger] self.zip_entries@[k]).0@ != rel@,
            decreases self.zip_entries@.len() - i,
        {
            if self.zip_entries[i].0 == String::from_str(rel) {
                proof {
                    assert(self.names()[i as int] == rel@);
                }
                return true;
            }
            i = i + 1;
        }
        proof {
            assert forall|k: int| 0 <= k < self.names().len() implies self.names()[k] != rel@ by {
                assert(self.zip_entries@[k].0@ != rel@);
            }
        }
        false
    }

    fn has_name_under(&self, rel: &str) -> (r: bool)
        ensures
            r == has_under(self.names(), rel@),
    {
        let dir = String::from_str(rel).concat("/");
        let mut i: usize = 0;
        while i < self.zip_entries.len()
            invariant
                i <= self.zip_entries@.len(),
                dir@ == rel@ + "/"@,
                forall|k: int| 0 <= k < i ==> !starts_with((#[trigger] self.zip_entries@[k]).0@, dir@),
            decreases self.zip_entries@.len() - i,
        {
            if has_prefix(self.zip_entries[i].0.as_str(), dir.as_str()) {
                proof {
                    assert(self.names()[i as int] == self.zip_entries@[i as int].0@);
                }
                return true;
            }
            i = i + 1;
        }
        proof {
            assert forall|k: int| 0 <= k < self.names().len() implies !starts_with(self.names()[k], rel@ + "/"@) by {
                assert(!starts_with(self.zip_entries@[k].0@, dir@));
            }
        }
        false
    }

    /// Whether `rel_path` exists in the bundle: for an archive, an entry of that
    /// name or one under it as a directory.
    pub fn path_exists(&self, rel_path: &str) -> (r: bool)
        ensures
            self.is_zip ==> r == (has_entry(self.names(), rel_path@) || has_under(self.names(), rel_path@)),
    {
        if self.is_zip {
            self.has_name(rel_path) || self.has_name_under(rel_path)
        } else {
            let p = join_path(self.base_path.as_str(), rel_path);
            disk_exists(p.as_str())
        }
    }

    /// Whether `rel_path` is a file: for an archive, an entry of that name.
    pub fn is_file(&self, rel_path: &str) -> (r: bool)
        ensures
            self.is_zip ==> r == has_entry(self.names(), rel_path@),
    {
        if self.is_zip {
            self.has_name(rel_path)
        } else {
            let p = join_path(self.base_path.as_str(), rel_path);
            disk_is_file(p.as_str())
        }
    }

    /// Whether `rel_path` is a directory: for an archive, some entry lies under it.
    pub fn is_dir(&self, rel_path: &str) -> (r: bool)
        ensures
            self.is_zip ==> r == has_under(self.names(), rel_path@),
    {
        if self.is_zip {
            self.has_name_under(rel_path)
        } else {
            let p = join_path(self.base_path.as_str(), rel_path);
            disk_is_dir(p.as_str())
        }
    }

    /// The text of the archive entry `rel_path` (the last one of that name).
    pub fn read_entry(&self, rel_path: &str) -> (r: Result<String, String>)
        ensures
            r is Ok <==> exists|i: int|
                is_last_entry(self.entries(), rel_path@, i) && vstd::utf8::valid_utf8(
                    #[trigger] self.entries()[i].1,
                ),
            r matches Ok(s) ==> exists|i: int|
                is_last_entry(self.entries(), rel_path@, i) && s@ == vstd::utf8::decode_utf8(
                    #[trigger] self.entries()[i].1,
                ),
            r matches Err(e) ==> if exists|i: int| is_last_entry(self.entries(), rel_path@, i) {
                e@ == "Invalid UTF-8: "@ + rel_path@
            } else {
                e@ == "File not found: "@ + rel_path@
            },
    {
        let ghost es = self.entries();
        let mut j: usize = self.zip_entries.len();
        while j > 0
            invariant
                j <= self.zip_entries@.len(),
                es == self.entries(),
                forall|k: int| j <= k < es.len() ==> (#[trigger] es[k]).0 != rel_path@,
            decreases j,
        {
            if self.zip_entries[j - 1].0 == String::from_str(rel_path) {
                let data = &self.zip_entries[j - 1].1;
                let mut bytes: Vec<u8> = Vec::new();
                let mut k: usize = 0;
                while k < data.len()
                    invariant
                        k <= data@.len(),
                        bytes@ == data@.subrange(0, k as int),
                    decreases data@.len() - k,
                {
                    bytes.push(data[k]);
                    k = k + 1;
                    proof {
                        assert(bytes@ =~= data@.subrange(0, k as int));
                    }
                }
                proof {
                    assert(bytes@ =~= es[j - 1].1);
                    assert(is_last_entry(es, rel_path@, j - 1));
                    assert forall|i: int| is_last_entry(es, rel_path@, i) implies i == j - 1 by {
                        if i < j - 1 {
                            assert(es[j - 1].0 == rel_path@);
                        }
                    }
                }
                return match decode_utf8(bytes) {
                    Some(s) => Ok(s),
                    None => Err(String::from_str("Invalid UTF-8: ").concat(rel_path)),
                };
            }
            j = j - 1;
        }
        proof {
            assert forall|i: int| !is_last_entry(es, rel_path@, i) by {
                if 0 <= i < es.len() {
                    assert(es[i].0 != rel_path@);
                }
            }
        }
        Err(String::from_str("File not found: ").concat(rel_path))
    }

    /// The bundle's name: the last component of its path, without extension.
    pub fn basename(&self) -> (r: String)
        ensures
            r@ == stem_of(file_name(self.base_path@)),
    {
        let name = file_name_of(self.base_path.as_str());
        stem(name.as_str())
    }
}

} // verus!
