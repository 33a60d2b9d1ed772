//! The folder-scanning core: which directory entries count as image files,
//! how each becomes a record, and the deterministic name order of the final
//! listing. The walk itself is the surrounding application's; this module
//! takes the walked entries as plain values.
use vstd::prelude::*;
use vstd::string::StrSliceExecFns;

use crate::classify::code_points;
use crate::classify::folded;
use crate::classify::is_supported_ext;
use crate::classify::normalize_ext;
use crate::types::FsEntry;
use crate::types::ImageFile;
use crate::types::ScanError;

verus! {

/// Index of the last `.` in `s`, if any.
pub open spec fn last_dot(s: Seq<char>) -> Option<int>
    decreases s.len(),
{
    if s.len() == 0 {
        None
    } else if s[s.len() - 1] == '.' {
        Some(s.len() - 1)
    } else {
        last_dot(s.drop_last())
    }
}

/// The extension of a base file name: what follows the last `.`, provided
/// something precedes that dot. A name without a dot, or with its only dot
/// in front (a hidden file), has no extension.
pub open spec fn ext_of(s: Seq<char>) -> Option<Seq<char>> {
    match last_dot(s) {
        Some(i) => if i > 0 {
            Some(s.subrange(i + 1, s.len() as int))
        } else {
            None
        },
        None => None,
    }
}

proof fn lemma_last_dot_prefix(s: Seq<char>, j: int)
    requires
        0 <= j <= s.len(),
        forall|k: int| j <= k < s.len() ==> s[k] != '.',
    ensures
        last_dot(s) == last_dot(s.subrange(0, j)),
    decreases s.len() - j,
{
    if j < s.len() {
        assert(s.drop_last() =~= s.subrange(0, s.len() - 1));
        lemma_last_dot_prefix(s.subrange(0, s.len() - 1), j);
        assert(s.subrange(0, s.len() - 1).subrange(0, j) =~= s.subrange(0, j));
    } else {
        assert(s.subrange(0, j) =~= s);
    }
}

proof fn lemma_last_dot_in_range(s: Seq<char>)
    requires
        last_dot(s) is Some,
    ensures
        0 <= last_dot(s)->Some_0 < s.len(),
        s[last_dot(s)->Some_0] == '.',
    decreases s.len(),
{
    if s.len() > 0 && s[s.len() - 1] != '.' {
        lemma_last_dot_in_range(s.drop_last());
    }
}

/// Position of the last `.` of `name`, as executable code.
fn find_last_dot(name: &str) -> (r: Option<usize>)
    ensures
        match r {
            Some(i) => last_dot(name@) == Some(i as int),
            None => last_dot(name@) is None,
        },
{
    let n = name.unicode_len();
    let mut j = n;
    while j > 0
        invariant
            n == name@.len(),
            j <= n,
            forall|k: int| j <= k < n ==> name@[k] != '.',
        decreases j,
    {
        let c = name.get_char(j - 1);
        if c == '.' {
            proof {
                lemma_last_dot_prefix(name@, j as int);
                assert(name@.subrange(0, j as int).len() == j);
                assert(name@.subrange(0, j as int)[j - 1] == '.');
            }
            return Some(j - 1);
        }
        j -= 1;
    }
    proof {
        lemma_last_dot_prefix(name@, 0);
        assert(name@.subrange(0, 0).len() == 0);
    }
    None
}

/// The extension of `name`, as executable code: `ext_of` made runnable.
pub fn extension_of(name: &str) -> (r: Option<&str>)
    ensures
        match r {
            Some(e) => ext_of(name@) == Some(e@),
            None => ext_of(name@) is None,
        },
{
    let n = name.unicode_len();
    match find_last_dot(name) {
        Some(i) => {
            proof {
                lemma_last_dot_in_range(name@);
            }
            if i > 0 {
                Some(name.substring_char(i + 1, n))
            } else {
                None
            }
        },
        None => None,
    }
}

/// Whether a walked entry yields a record: a non-directory whose attributes
/// could be read and whose extension is a supported image format.
pub open spec fn qualifies(e: FsEntry) -> bool {
    &&& !e.is_dir
    &&& e.attrs is Some
    &&& match ext_of(e.name@) {
        Some(x) => is_supported_ext(x),
        None => false,
    }
}

/// Everything a record takes from the entry it was built of — all its fields
/// but the freshly drawn identifier.
#[verifier::ext_equal]
pub ghost struct RecordKey {
    pub name: Seq<char>,
    pub path: Seq<char>,
    pub size: u64,
    pub modified: u64,
    /// Code points of the lower-cased extension.
    pub ext_folded: Seq<int>,
}

pub open spec fn record_key(f: ImageFile) -> RecordKey {
    RecordKey {
        name: f.name@,
        path: f.path@,
        size: f.size,
        modified: f.modified,
        ext_folded: code_points(f.extension@),
    }
}

pub open spec fn entry_key(e: FsEntry) -> RecordKey
    recommends
        qualifies(e),
{
    RecordKey {
        name: e.name@,
        path: e.path@,
        size: e.attrs->Some_0.size,
        modified: e.attrs->Some_0.modified,
        ext_folded: folded(ext_of(e.name@)->Some_0),
    }
}

pub open spec fn record_keys(s: Seq<ImageFile>) -> Seq<RecordKey> {
    s.map_values(|f: ImageFile| record_key(f))
}

/// The entries of `s` that yield records, in their walked order.
pub open spec fn qualifying(s: Seq<FsEntry>) -> Seq<FsEntry> {
    s.filter(|e: FsEntry| qualifies(e))
}

pub open spec fn qualifying_keys(s: Seq<FsEntry>) -> Seq<RecordKey> {
    qualifying(s).map_values(|e: FsEntry| entry_key(e))
}

/// A scan answers to the qualifying entries alone: a non-qualifying entry
/// (an unsupported file, a directory, an unreadable one) inserted anywhere
/// in the listing leaves the qualifying sequence — and with it the records a
/// scan is owed and their count — unchanged, however many such entries there
/// are and however they are interleaved.
pub proof fn lemma_scan_ignores_non_qualifying(entries: Seq<FsEntry>, e: FsEntry, i: int)
    requires
        0 <= i <= entries.len(),
        !qualifies(e),
    ensures
        qualifying(entries.insert(i, e)) == qualifying(entries),
        qualifying_keys(entries.insert(i, e)) == qualifying_keys(entries),
{
    let pred = |x: FsEntry| qualifies(x);
    let a = entries.subrange(0, i);
    let b = entries.subrange(i, entries.len() as int);
    assert(entries =~= a + b);
    assert(entries.insert(i, e) =~= a + (seq![e] + b));
    Seq::filter_distributes_over_add(a, b, pred);
    Seq::filter_distributes_over_add(seq![e], b, pred);
    Seq::filter_distributes_over_add(a, seq![e] + b, pred);
    reveal(Seq::filter);
    assert(seq![e].drop_last() =~= Seq::<FsEntry>::empty());
    assert(Seq::<FsEntry>::empty().filter(pred) =~= Seq::<FsEntry>::empty());
    assert(seq![e].last() == e && !pred(e));
    assert(seq![e].filter(pred) =~= Seq::<FsEntry>::empty());
    assert((a + (seq![e] + b)).filter(pred) =~= (a + b).filter(pred));
}

/// Relies on uuid::Uuid::new_v4 and its hyphenated `Display` form: a fresh
/// random version-4 identifier always renders as 36 characters. Nothing is
/// assumed of the randomness itself.
#[verifier::external_body]
fn fresh_id() -> (r: String)
    ensures
        r@.len() == 36,
{
    uuid::Uuid::new_v4().to_string()
}

/// Builds the record of one walked entry, or decides that the entry is
/// skipped: directories, entries without a supported image extension, and
/// entries whose attributes could not be read yield nothing.
pub fn build_record(e: &FsEntry) -> (r: Option<ImageFile>)
    ensures
        r is Some <==> qualifies(*e),
        r matches Some(f) ==> record_key(f) == entry_key(*e) && is_supported_ext(f.extension@),
{
    if e.is_dir {
        return None;
    }
    let attrs = match &e.attrs {
        Some(a) => *a,
        None => {
            return None;
        },
    };
    let ext = match extension_of(e.name.as_str()) {
        Some(x) => x,
        None => {
            return None;
        },
    };
    let extension = match normalize_ext(ext) {
        Some(s) => s,
        None => {
            return None;
        },
    };
    let f = ImageFile {
        id: fresh_id(),
        name: e.name.clone(),
        path: e.path.clone(),
        size: attrs.size,
        modified: attrs.modified,
        extension,
    };
    proof {
        assert(record_key(f) =~= entry_key(*e));
    }
    Some(f)
}

/// Builds the records of all qualifying entries, keeping the walked order.
pub fn build_records(entries: &Vec<FsEntry>) -> (r: Vec<ImageFile>)
    ensures
        record_keys(r@) == qualifying_keys(entries@),
        forall|i: int| 0 <= i < r@.len() ==> is_supported_ext(#[trigger] r@[i].extension@),
{
    let mut r: Vec<ImageFile> = Vec::new();
    let n = entries.len();
    let mut i: usize = 0;
    proof {
        assert(entries@.subrange(0, 0).len() == 0);
        reveal(Seq::filter);
    }
    while i < n
        invariant
            n == entries@.len(),
            i <= n,
            record_keys(r@) =~= qualifying_keys(entries@.subrange(0, i as int)),
            forall|k: int| 0 <= k < r@.len() ==> is_supported_ext(#[trigger] r@[k].extension@),
        decreases n - i,
    {
        let ghost pre = entries@.subrange(0, i as int);
        let ghost e = entries@[i as int];
        let ghost r_pre = r@;
        match build_record(&entries[i]) {
            Some(f) => {
                r.push(f);
                proof {
                    assert(record_keys(r@) =~= record_keys(r_pre).push(record_key(f)));
                }
            },
            None => {},
        }
        proof {
            let post = entries@.subrange(0, i + 1);
            assert(post.drop_last() =~= pre);
            assert(post.last() == e);
            reveal(Seq::filter);
            if qualifies(e) {
                assert(qualifying(post) == qualifying(pre).push(e));
                assert(qualifying_keys(post) =~= qualifying_keys(pre).push(entry_key(e)));
            } else {
                assert(qualifying(post) == qualifying(pre));
            }
        }
        i += 1;
    }
    proof {
        assert(entries@.subrange(0, n as int) =~= entries@);
    }
    r
}

/// Byte-wise (code-point-wise) lexicographic order on names: `a` at or
/// before `b`. Code-point order over the characters coincides with byte-wise
/// order over their UTF-8 encodings.
pub open spec fn lex_le(a: Seq<char>, b: Seq<char>) -> bool
    decreases a.len(),
{
    if a.len() == 0 {
        true
    } else if b.len() == 0 {
        false
    } else if (a[0] as int) < (b[0] as int) {
        true
    } else if (a[0] as int) > (b[0] as int) {
        false
    } else {
        lex_le(a.drop_first(), b.drop_first())
    }
}

proof fn lemma_lex_skip(a: Seq<char>, b: Seq<char>, i: int)
    requires
        0 <= i <= a.len(),
        i <= b.len(),
        forall|k: int| 0 <= k < i ==> (a[k] as int) == (b[k] as int),
    ensures
        lex_le(a, b) == lex_le(a.skip(i), b.skip(i)),
    decreases i,
{
    if i > 0 {
        lemma_lex_skip(a.drop_first(), b.drop_first(), i - 1);
        assert(a.drop_first().skip(i - 1) =~= a.skip(i));
        assert(b.drop_first().skip(i - 1) =~= b.skip(i));
    } else {
        assert(a.skip(0) =~= a);
        assert(b.skip(0) =~= b);
    }
}

/// `lex_le` is total: of two names, one is at or before the other.
pub proof fn lemma_lex_total(a: Seq<char>, b: Seq<char>)
    ensures
        lex_le(a, b) || lex_le(b, a),
    decreases a.len(),
{
    if a.len() > 0 && b.len() > 0 && (a[0] as int) == (b[0] as int) {
        lemma_lex_total(a.drop_first(), b.drop_first());
    }
}

/// `lex_le` is transitive.
pub proof fn lemma_lex_trans(a: Seq<char>, b: Seq<char>, c: Seq<char>)
    requires
        lex_le(a, b),
        lex_le(b, c),
    ensures
        lex_le(a, c),
    decreases a.len(),
{
    if a.len() > 0 && b.len() > 0 && c.len() > 0 && (a[0] as int) == (b[0] as int) && (b[0] as int)
        == (c[0] as int) {
        lemma_lex_trans(a.drop_first(), b.drop_first(), c.drop_first());
    }
}

/// Whether `a` comes at or before `b` in the listing order, as executable
/// code.
pub fn str_le(a: &str, b: &str) -> (r: bool)
    ensures
        r == lex_le(a@, b@),
{
    let a_len = a.unicode_len();
    let b_len = b.unicode_len();
    let mut i: usize = 0;
    while i < a_len && i < b_len
        invariant
            a_len == a@.len(),
            b_len == b@.len(),
            i <= a_len,
            i <= b_len,
            forall|k: int| 0 <= k < i ==> (a@[k] as int) == (b@[k] as int),
        decreases a_len - i,
    {
        let ca = a.get_char(i) as u32;
        let cb = b.get_char(i) as u32;
        if ca != cb {
            proof {
                lemma_lex_skip(a@, b@, i as int);
                assert(a@.skip(i as int)[0] == a@[i as int]);
                assert(b@.skip(i as int)[0] == b@[i as int]);
            }
            return ca < cb;
        }
        i += 1;
    }
    proof {
        lemma_lex_skip(a@, b@, i as int);
        if i == a_len {
            assert(a@.skip(i as int).len() == 0);
        } else {
            assert(b@.skip(i as int).len() == 0);
            assert(a@.skip(i as int).len() > 0);
        }
    }
    a_len <= b_len
}

/// The listing order: records sorted by name, ascending.
pub open spec fn sorted_by_name(s: Seq<ImageFile>) -> bool {
    forall|i: int, j: int| 0 <= i <= j < s.len() ==> lex_le(s[i].name@, s[j].name@)
}

proof fn lemma_swap_multiset<A>(s: Seq<A>, j: int)
    requires
        1 <= j < s.len(),
    ensures
        s.remove(j).insert(j - 1, s[j]).to_multiset() == s.to_multiset(),
{
    broadcast use vstd::seq_lib::group_to_multiset_ensures;
    broadcast use vstd::seq_lib::to_multiset_insert;
    broadcast use vstd::seq_lib::to_multiset_remove;
    broadcast use vstd::multiset::group_multiset_axioms;

    assert(s.contains(s[j]));
    assert(s.remove(j).insert(j - 1, s[j]).to_multiset() =~= s.to_multiset());
}

/// Sorts records by name, ascending. The result is a permutation of the
/// input: the same records, and record for record the same keys.
pub fn sort_records(v: &mut Vec<ImageFile>)
    ensures
        sorted_by_name(final(v)@),
        final(v)@.to_multiset() == old(v)@.to_multiset(),
        record_keys(final(v)@).to_multiset() == record_keys(old(v)@).to_multiset(),
        final(v)@.len() == old(v)@.len(),
{
    let n = v.len();
    if n == 0 {
        return;
    }
    let mut i: usize = 1;
    proof {
        lemma_lex_total(v@[0].name@, v@[0].name@);
    }
    while i < n
        invariant
            n == v@.len(),
            1 <= i <= n,
            forall|k: int, l: int| 0 <= k <= l < i ==> lex_le(
                #[trigger] v@[k].name@,
                #[trigger] v@[l].name@,
            ),
            v@.to_multiset() == old(v)@.to_multiset(),
            record_keys(v@).to_multiset() == record_keys(old(v)@).to_multiset(),
        decreases n - i,
    {
        let mut j: usize = i;
        while j > 0 && !str_le(v[j - 1].name.as_str(), v[j].name.as_str())
            invariant
                n == v@.len(),
                0 <= j <= i < n,
                forall|k: int, l: int|
                    0 <= k <= l <= i && k != j && l != j ==> lex_le(
                        #[trigger] v@[k].name@,
                        #[trigger] v@[l].name@,
                    ),
                forall|l: int| j < l <= i ==> lex_le(v@[j as int].name@, #[trigger] v@[l].name@),
                v@.to_multiset() == old(v)@.to_multiset(),
                record_keys(v@).to_multiset() == record_keys(old(v)@).to_multiset(),
            decreases j,
        {
            proof {
                lemma_lex_total(v@[j - 1].name@, v@[j as int].name@);
            }
            let ghost s = v@;
            let x = v.remove(j);
            v.insert(j - 1, x);
            proof {
                assert(v@ =~= s.remove(j as int).insert(j - 1, s[j as int]));
                lemma_swap_multiset(s, j as int);
                assert(record_keys(v@) =~= record_keys(s).remove(j as int).insert(
                    j - 1,
                    record_key(s[j as int]),
                ));
                lemma_swap_multiset(record_keys(s), j as int);
            }
            j -= 1;
        }
        proof {
            lemma_lex_total(v@[j as int].name@, v@[j as int].name@);
            assert forall|k: int, l: int| 0 <= k <= l <= i implies lex_le(
                v@[k].name@,
                v@[l].name@,
            ) by {
                if k == j && l != j {
                } else if l == j && k != j {
                    assert(lex_le(v@[k].name@, v@[j - 1].name@));
                    assert(lex_le(v@[j - 1].name@, v@[j as int].name@));
                    lemma_lex_trans(v@[k].name@, v@[j - 1].name@, v@[j as int].name@);
                }
            }
        }
        i += 1;
    }
}

/// Names the unit the scanning operations hang off, as the application sees
/// them.
pub struct FileManager;

impl FileManager {
    /// The scan proper: decides `NotFound` for an absent root; an existing
    /// root that is no directory yields the empty listing rather than an
    /// error; a directory root's walked entries become image records — one
    /// per qualifying entry, keys taken from the entries, sorted by name
    /// ascending.
    pub fn scan_folder(root_exists: bool, root_is_dir: bool, entries: &Vec<FsEntry>) -> (r: Result<
        Vec<ImageFile>,
        ScanError,
    >)
        ensures
            r is Ok <==> root_exists,
            r matches Ok(images) ==> {
                &&& sorted_by_name(images@)
                &&& !root_is_dir ==> images@.len() == 0
                &&& root_is_dir ==> images@.len() == qualifying(entries@).len()
                &&& root_is_dir ==> record_keys(images@).to_multiset() == qualifying_keys(
                    entries@,
                ).to_multiset()
                &&& forall|k: int|
                    0 <= k < images@.len() ==> is_supported_ext(#[trigger] images@[k].extension@)
            },
            r matches Err(e) ==> e == ScanError::NotFound,
    {
        if !root_exists {
            return Err(ScanError::NotFound);
        }
        if !root_is_dir {
            return Ok(Vec::new());
        }
        let mut images = build_records(entries);
        let ghost built = images@;
        sort_records(&mut images);
        proof {
            broadcast use vstd::seq_lib::group_to_multiset_ensures;

            assert(record_keys(built).len() == qualifying_keys(entries@).len());
            assert(images@.len() == record_keys(images@).len());
            assert(record_keys(images@).to_multiset().len() == record_keys(
                built,
            ).to_multiset().len());
            assert forall|k: int| 0 <= k < images@.len() implies is_supported_ext(
                #[trigger] images@[k].extension@,
            ) by {
                assert(images@.contains(images@[k]));
                assert(images@.to_multiset().count(images@[k]) > 0);
                assert(built.to_multiset().count(images@[k]) > 0);
                assert(built.contains(images@[k]));
                let idx = choose|idx: int| 0 <= idx < built.len() && built[idx] == images@[k];
                assert(is_supported_ext(built[idx].extension@));
            }
        }
        Ok(images)
    }
}

} // verus!
