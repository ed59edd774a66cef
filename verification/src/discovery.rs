//! Selection of the files a batch analyzes: among the immediate entries of
//! a directory, exactly the regular files whose name ends in the fixed,
//! case-sensitive suffix `.txt`.

use vstd::prelude::*;

verus! {

/// What the caller learned about one immediate directory entry.
pub struct DirEntryInfo {
    /// The entry's path, as it is displayed and opened.
    pub path: String,
    /// The last component of the path.
    pub name: String,
    /// Whether the entry is a regular file.
    pub is_file: bool,
}

/// Whether a file name carries the extension `txt`: it ends in `.txt` and
/// has at least one character before that suffix, so that a bare `.txt`
/// (a name with nothing before its only dot) does not count.
pub open spec fn spec_is_txt_name(s: Seq<char>) -> bool {
    &&& s.len() >= 5
    &&& s[s.len() - 4] == '.'
    &&& s[s.len() - 3] == 't'
    &&& s[s.len() - 2] == 'x'
    &&& s[s.len() - 1] == 't'
}

/// Whether `name` carries the extension `txt`, case-sensitively.
pub fn is_txt_name(name: &str) -> (b: bool)
    ensures
        b == spec_is_txt_name(name@),
{
    let n = name.unicode_len();
    if n < 5 {
        return false;
    }
    name.get_char(n - 4) == '.' && name.get_char(n - 3) == 't' && name.get_char(n - 2) == 'x'
        && name.get_char(n - 1) == 't'
}

/// The paths selected from `entries`, in order: those of the regular files
/// whose name carries the extension `txt`.
pub open spec fn spec_selected(entries: Seq<DirEntryInfo>) -> Seq<String>
    decreases entries.len(),
{
    if entries.len() == 0 {
        Seq::empty()
    } else {
        spec_selected(entries.drop_last()) + if entries.last().is_file && spec_is_txt_name(
            entries.last().name@,
        ) {
            seq![entries.last().path]
        } else {
            Seq::empty()
        }
    }
}

/// Selects from the immediate entries of a directory the regular files
/// with the extension `.txt` and returns their paths, in the order given.
/// No entry matching means an empty result, never a failure; the caller
/// skips entries it could not enumerate before handing the rest here.
#[verifier::loop_isolation(false)]
pub fn collect_txt_files(entries: &Vec<DirEntryInfo>) -> (r: Vec<String>)
    ensures
        r@ == spec_selected(entries@),
{
    let mut r: Vec<String> = Vec::new();
    let mut i: usize = 0;
    while i < entries.len()
        invariant
            i <= entries@.len(),
            r@ == spec_selected(entries@.take(i as int)),
        decreases entries@.len() - i,
    {
        proof {
            assert(entries@.take(i + 1).drop_last() =~= entries@.take(i as int));
            assert(entries@.take(i + 1).last() == entries@[i as int]);
        }
        let e = &entries[i];
        if e.is_file && is_txt_name(e.name.as_str()) {
            r.push(e.path.clone());
            proof {
                assert(r@ =~= spec_selected(entries@.take(i + 1)));
            }
        }
        i += 1;
    }
    proof {
        assert(entries@.take(entries@.len() as int) =~= entries@);
    }
    r
}

} // verus!
