//! Input resolution: which paths a run converts, and in which order.

use vstd::prelude::*;
use vstd::seq_lib::*;
use vstd::string::*;
use vstd::utf8::*;
use crate::error::ConfigError;

verus! {

/// Where the images of a run come from.
#[derive(Debug)]
pub enum InputSource {
    /// An explicit list of image paths, in the order given.
    Files(Vec<String>),
    /// A directory whose direct entries are the images.
    Directory(String),
}

/// Chooses the input source of a run. Exactly one of the image list and
/// the directory must be given; neither and both are configuration
/// errors.
pub fn select_input(images: Option<Vec<String>>, directory: Option<String>) -> (r: Result<
    InputSource,
    ConfigError,
>)
    ensures
        match (images, directory) {
            (Some(list), None) => r == Ok::<InputSource, ConfigError>(InputSource::Files(list)),
            (None, Some(dir)) => r == Ok::<InputSource, ConfigError>(InputSource::Directory(dir)),
            (None, None) => r == Err::<InputSource, ConfigError>(ConfigError::MissingInput),
            (Some(_), Some(_)) => r == Err::<InputSource, ConfigError>(
                ConfigError::ConflictingInputs,
            ),
        },
{
    match (images, directory) {
        (Some(list), None) => Ok(InputSource::Files(list)),
        (None, Some(dir)) => Ok(InputSource::Directory(dir)),
        (None, None) => Err(ConfigError::MissingInput),
        (Some(_), Some(_)) => Err(ConfigError::ConflictingInputs),
    }
}

/// The entries of a directory listing that could be read, in listing
/// order. An entry that could not be read is `None`.
pub open spec fn present(entries: Seq<Option<String>>) -> Seq<String>
    decreases entries.len(),
{
    if entries.len() == 0 {
        Seq::empty()
    } else {
        let before = present(entries.drop_last());
        match entries.last() {
            Some(path) => before.push(path),
            None => before,
        }
    }
}

/// Keeps the readable entries of a directory listing, in listing order,
/// and drops the unreadable ones without complaint.
pub fn readable_entries(entries: Vec<Option<String>>) -> (paths: Vec<String>)
    ensures
        paths@ == present(entries@),
{
    let mut paths: Vec<String> = Vec::new();
    for entry in it: entries
        invariant
            it.seq() == entries@,
            paths@ == present(it.seq().take(it.index() as int)),
    {
        proof {
            assert(it.seq().take(it.index() + 1).drop_last() =~= it.seq().take(it.index() as int));
        }
        match entry {
            Some(path) => {
                paths.push(path);
            },
            None => {},
        }
    }
    proof {
        assert(entries@.take(entries@.len() as int) =~= entries@);
    }
    paths
}

/// Lexicographic order on byte strings: whether `a` comes no later than
/// `b`. A proper prefix comes before what it is a prefix of; otherwise the
/// first position at which the two differ decides.
pub open spec fn lex_le(a: Seq<u8>, b: Seq<u8>) -> bool
    decreases a.len(),
{
    if a.len() == 0 {
        true
    } else if b.len() == 0 {
        false
    } else if a[0] == b[0] {
        lex_le(a.drop_first(), b.drop_first())
    } else {
        a[0] < b[0]
    }
}

/// The order of paths: lexicographic by the path string, compared byte by
/// byte in its UTF-8 encoding.
pub open spec fn path_le(a: Seq<char>, b: Seq<char>) -> bool {
    lex_le(encode_utf8(a), encode_utf8(b))
}

/// Whether a sequence of paths is in ascending order.
pub open spec fn sorted(paths: Seq<Seq<char>>) -> bool {
    forall|i: int, j: int| 0 <= i < j < paths.len() ==> path_le(paths[i], paths[j])
}

/// The path strings of a sequence of paths.
pub open spec fn texts(paths: Seq<String>) -> Seq<Seq<char>> {
    paths.map_values(|p: String| p@)
}

/// Every byte string comes no later than itself.
pub proof fn lex_le_reflexive(a: Seq<u8>)
    ensures
        lex_le(a, a),
    decreases a.len(),
{
    if a.len() > 0 {
        lex_le_reflexive(a.drop_first());
    }
}

/// Of two byte strings, one comes no later than the other.
pub proof fn lex_le_total(a: Seq<u8>, b: Seq<u8>)
    ensures
        lex_le(a, b) || lex_le(b, a),
    decreases a.len(),
{
    if a.len() > 0 && b.len() > 0 && a[0] == b[0] {
        lex_le_total(a.drop_first(), b.drop_first());
    }
}

/// The order on byte strings is transitive.
pub proof fn lex_le_transitive(a: Seq<u8>, b: Seq<u8>, c: Seq<u8>)
    requires
        lex_le(a, b),
        lex_le(b, c),
    ensures
        lex_le(a, c),
    decreases a.len(),
{
    if a.len() > 0 && b.len() > 0 && c.len() > 0 && a[0] == b[0] && b[0] == c[0] {
        lex_le_transitive(a.drop_first(), b.drop_first(), c.drop_first());
    }
}

/// Two byte strings that each come no later than the other are equal.
pub proof fn lex_le_antisymmetric(a: Seq<u8>, b: Seq<u8>)
    requires
        lex_le(a, b),
        lex_le(b, a),
    ensures
        a == b,
    decreases a.len(),
{
    if a.len() > 0 && b.len() > 0 {
        lex_le_antisymmetric(a.drop_first(), b.drop_first());
        assert(a =~= seq![a[0]] + a.drop_first());
        assert(b =~= seq![b[0]] + b.drop_first());
    } else {
        assert(a =~= b);
    }
}

/// The order of paths is a total order: reflexive, total, transitive and
/// antisymmetric.
pub proof fn path_order_is_total(a: Seq<char>, b: Seq<char>, c: Seq<char>)
    ensures
        path_le(a, a),
        path_le(a, b) || path_le(b, a),
        path_le(a, b) && path_le(b, c) ==> path_le(a, c),
        path_le(a, b) && path_le(b, a) ==> a == b,
{
    lex_le_reflexive(encode_utf8(a));
    lex_le_total(encode_utf8(a), encode_utf8(b));
    if path_le(a, b) && path_le(b, c) {
        lex_le_transitive(encode_utf8(a), encode_utf8(b), encode_utf8(c));
    }
    if path_le(a, b) && path_le(b, a) {
        lex_le_antisymmetric(encode_utf8(a), encode_utf8(b));
        encode_utf8_decode_utf8(a);
        encode_utf8_decode_utf8(b);
    }
}

/// Compares two paths: whether `a` comes no later than `b`.
pub fn comes_before(a: &str, b: &str) -> (r: bool)
    ensures
        r == path_le(a@, b@),
{
    let x = a.as_bytes();
    let y = b.as_bytes();
    let mut i: usize = 0;
    proof {
        assert(x@.skip(0) =~= x@);
        assert(y@.skip(0) =~= y@);
    }
    while i < x.len() && i < y.len()
        invariant
            x@ == encode_utf8(a@),
            y@ == encode_utf8(b@),
            i <= x@.len(),
            i <= y@.len(),
            lex_le(x@, y@) == lex_le(x@.skip(i as int), y@.skip(i as int)),
        decreases x@.len() - i,
    {
        proof {
            assert(x@.skip(i as int).drop_first() =~= x@.skip(i + 1));
            assert(y@.skip(i as int).drop_first() =~= y@.skip(i + 1));
        }
        if x[i] != y[i] {
            return x[i] < y[i];
        }
        i += 1;
    }
    x.len() <= y.len()
}

/// Sorts paths into ascending order.
///
/// The result is an ascending arrangement of the given paths, and paths
/// that are already ascending are returned as they are.
pub fn sort_paths(paths: Vec<String>) -> (r: Vec<String>)
    ensures
        sorted(texts(r@)),
        texts(r@).to_multiset() == texts(paths@).to_multiset(),
        sorted(texts(paths@)) ==> texts(r@) == texts(paths@),
{
    let mut out: Vec<String> = Vec::new();
    let mut i: usize = 0;
    proof {
        assert(texts(paths@.take(0)) =~= texts(out@));
    }
    while i < paths.len()
        invariant
            i <= paths.len(),
            out.len() == i,
            sorted(texts(out@)),
            texts(out@).to_multiset() == texts(paths@.take(i as int)).to_multiset(),
            sorted(texts(paths@)) ==> texts(out@) == texts(paths@.take(i as int)),
        decreases paths.len() - i,
    {
        let path = paths[i].clone();
        let mut j: usize = out.len();
        while j > 0 && !comes_before(out[j - 1].as_str(), path.as_str())
            invariant
                j <= out.len(),
                forall|k: int| j <= k < out.len() ==> !path_le(#[trigger] out[k]@, path@),
            decreases j,
        {
            j -= 1;
        }
        let ghost before = out@;
        out.insert(j, path);
        proof {
            let taken = texts(paths@.take(i as int));
            assert(texts(out@) =~= texts(before).insert(j as int, path@));
            assert(texts(paths@.take(i + 1)) =~= taken.push(path@));
            to_multiset_insert(texts(before), j as int, path@);
            to_multiset_build(taken, path@);
            assert forall|p: int, q: int| 0 <= p < q < out.len() implies path_le(
                texts(out@)[p],
                texts(out@)[q],
            ) by {
                if p == j {
                    path_order_is_total(path@, before[q - 1]@, path@);
                } else if q == j {
                    assert(texts(before)[p] == before[p]@);
                    assert(p < j - 1 ==> path_le(texts(before)[p], texts(before)[j - 1]));
                    path_order_is_total(before[p]@, before[j - 1]@, path@);
                } else {
                    let from = if p < j { p } else { p - 1 };
                    let to = if q < j { q } else { q - 1 };
                    assert(path_le(texts(before)[from], texts(before)[to]));
                }
            }
            if sorted(texts(paths@)) {
                assert(j == i) by {
                    if i > 0 {
                        assert(before[i - 1]@ == texts(paths@.take(i as int))[i - 1]);
                        assert(path_le(texts(paths@)[i - 1], texts(paths@)[i as int]));
                    }
                }
                assert(texts(out@) =~= texts(paths@.take(i + 1)));
            }
        }
        i += 1;
    }
    proof {
        assert(paths@.take(i as int) =~= paths@);
    }
    out
}

/// Puts the resolved paths into processing order: ascending if
/// `auto_sort` is set, as given otherwise.
pub fn arrange(paths: Vec<String>, auto_sort: bool) -> (r: Vec<String>)
    ensures
        !auto_sort ==> r == paths,
        auto_sort ==> sorted(texts(r@)) && texts(r@).to_multiset() == texts(paths@).to_multiset(),
        auto_sort && sorted(texts(paths@)) ==> texts(r@) == texts(paths@),
{
    if auto_sort {
        sort_paths(paths)
    } else {
        paths
    }
}

/// Ascending order leaves no choice: two ascending sequences that hold the
/// same paths, each as often as the other, are the same sequence.
pub proof fn ascending_arrangement_is_unique(a: Seq<Seq<char>>, b: Seq<Seq<char>>)
    requires
        sorted(a),
        sorted(b),
        a.to_multiset() == b.to_multiset(),
    ensures
        a == b,
    decreases a.len(),
{
    a.to_multiset_ensures();
    b.to_multiset_ensures();
    if a.len() == 0 {
        assert(a =~= b);
    } else {
        assert(b.len() > 0);
        assert(a.contains(a[0]));
        assert(b.contains(b[0]));
        to_multiset_contains(a, a[0]);
        to_multiset_contains(b, a[0]);
        to_multiset_contains(a, b[0]);
        to_multiset_contains(b, b[0]);
        assert(b.contains(a[0]));
        assert(a.contains(b[0]));
        let i = choose|i: int| 0 <= i < b.len() && b[i] == a[0];
        let j = choose|j: int| 0 <= j < a.len() && a[j] == b[0];
        path_order_is_total(a[0], b[0], a[0]);
        assert(path_le(b[0], a[0]));
        assert(path_le(a[0], b[0]));
        assert(a[0] == b[0]);
        to_multiset_remove(a, 0);
        to_multiset_remove(b, 0);
        assert(a.remove(0) =~= a.drop_first());
        assert(b.remove(0) =~= b.drop_first());
        assert forall|p: int, q: int| 0 <= p < q < a.drop_first().len() implies path_le(
            a.drop_first()[p],
            a.drop_first()[q],
        ) by {
            assert(path_le(a[p + 1], a[q + 1]));
        }
        assert forall|p: int, q: int| 0 <= p < q < b.drop_first().len() implies path_le(
            b.drop_first()[p],
            b.drop_first()[q],
        ) by {
            assert(path_le(b[p + 1], b[q + 1]));
        }
        ascending_arrangement_is_unique(a.drop_first(), b.drop_first());
        assert(a =~= seq![a[0]] + a.drop_first());
        assert(b =~= seq![b[0]] + b.drop_first());
    }
}

} // verus!
