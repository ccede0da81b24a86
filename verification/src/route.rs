//! Mapping a caller-supplied route segment to a blob file name. The segment
//! is treated as a file system basename only: directory components are
//! discarded, a trailing extension is split off as a rendering hint, and the
//! fixed raw-content suffix is appended. The extension never changes which
//! blob is named, only how its content is rendered.

use vstd::prelude::*;

use crate::ident::is_ident_char;
use crate::text::last_pos;
use crate::text::lemma_last_pos;
use crate::text::lemma_last_pos_at;
use crate::text::rfind_char;

verus! {

pub open spec fn rstrip_slashes(s: Seq<char>) -> Seq<char>
    decreases s.len(),
{
    if s.len() > 0 && s.last() == '/' {
        rstrip_slashes(s.drop_last())
    } else {
        s
    }
}

/// The final path component of `route`: what follows the last '/', once
/// trailing slashes are dropped.
pub open spec fn basename_of(route: Seq<char>) -> Seq<char> {
    let t = rstrip_slashes(route);
    t.subrange(last_pos(t, '/'), t.len() as int)
}

/// Whether a basename is one of the relative path components, which never
/// name a blob.
pub open spec fn is_dot_component(b: Seq<char>) -> bool {
    b == seq!['.'] || b == seq!['.', '.']
}

/// The identifier part of a route: the basename with any extension removed.
/// The relative components '.' and '..' give an empty stem, and a dot in the
/// first position starts no extension.
pub open spec fn stem_of(route: Seq<char>) -> Seq<char> {
    let b = basename_of(route);
    if is_dot_component(b) {
        Seq::empty()
    } else {
        let p = last_pos(b, '.');
        if p >= 2 {
            b.take(p - 1)
        } else {
            b
        }
    }
}

/// The extension of a route's basename, when it has one.
pub open spec fn ext_of(route: Seq<char>) -> Option<Seq<char>> {
    let b = basename_of(route);
    if is_dot_component(b) {
        None
    } else {
        let p = last_pos(b, '.');
        if p >= 2 {
            Some(b.subrange(p, b.len() as int))
        } else {
            None
        }
    }
}

/// The on-disk file name for identifier stem `stem`: the stem with the fixed
/// raw-content suffix.
pub open spec fn blob_name(stem: Seq<char>) -> Seq<char> {
    stem + ".txt"@
}

proof fn lemma_rstrip_slashes_take(s: Seq<char>, e: int)
    requires
        0 <= e <= s.len(),
        forall|j: int| e <= j < s.len() ==> s[j] == '/',
        e > 0 ==> s[e - 1] != '/',
    ensures
        rstrip_slashes(s) == s.take(e),
    decreases s.len(),
{
    if e == s.len() {
        assert(s.take(e) =~= s);
    } else {
        lemma_rstrip_slashes_take(s.drop_last(), e);
        assert(s.drop_last().take(e) =~= s.take(e));
    }
}

/// Splits a route segment into the blob file name it names and the requested
/// extension, if any. The returned file name is always the stem with the
/// raw-content suffix appended, so a hostile segment cannot name a file
/// outside the storage directory.
pub fn parse_filehash(file_hash: &str) -> (r: (String, Option<String>))
    ensures
        r.0@ == blob_name(stem_of(file_hash@)),
        r.1.deep_view() == ext_of(file_hash@),
{
    let n: usize = file_hash.unicode_len();
    let mut e: usize = n;
    while e > 0 && file_hash.get_char(e - 1) == '/'
        invariant
            n == file_hash@.len(),
            0 <= e <= n,
            forall|j: int| e <= j < n ==> file_hash@[j] == '/',
        decreases e,
    {
        e = e - 1;
    }
    proof {
        lemma_rstrip_slashes_take(file_hash@, e as int);
    }
    let t = file_hash.substring_char(0, e);
    let bs: usize = rfind_char(t, '/');
    proof {
        lemma_last_pos(t@, '/');
    }
    let base = t.substring_char(bs, e);
    let blen: usize = e - bs;
    proof {
        assert(base@ =~= basename_of(file_hash@));
    }
    if blen == 1 && base.get_char(0) == '.' {
        proof {
            assert(base@ =~= seq!['.']);
            reveal_strlit(".txt");
            assert(".txt"@ =~= Seq::<char>::empty() + ".txt"@);
        }
        return (String::from_str(".txt"), None);
    }
    if blen == 2 && base.get_char(0) == '.' && base.get_char(1) == '.' {
        proof {
            assert(base@ =~= seq!['.', '.']);
            reveal_strlit(".txt");
            assert(".txt"@ =~= Seq::<char>::empty() + ".txt"@);
        }
        return (String::from_str(".txt"), None);
    }
    proof {
        assert(!is_dot_component(base@));
    }
    let p: usize = rfind_char(base, '.');
    proof {
        lemma_last_pos(base@, '.');
    }
    if p >= 2 {
        let stem = base.substring_char(0, p - 1);
        let ext = base.substring_char(p, blen);
        proof {
            assert(stem@ =~= stem_of(file_hash@));
            assert(Some(ext@) == ext_of(file_hash@));
        }
        (String::from_str(stem).concat(".txt"), Some(String::from_str(ext)))
    } else {
        proof {
            assert(base@ == stem_of(file_hash@));
        }
        (String::from_str(base).concat(".txt"), None)
    }
}

/// No blob file name escapes the storage directory: it contains no path
/// separator, always ends in the raw-content suffix, and is never a relative
/// path component.
pub proof fn lemma_blob_name_safe(route: Seq<char>)
    ensures
        forall|i: int|
            0 <= i < blob_name(stem_of(route)).len() ==> #[trigger] blob_name(stem_of(route))[i]
                != '/',
        blob_name(stem_of(route)).len() >= 4,
        !is_dot_component(blob_name(stem_of(route))),
{
    let t = rstrip_slashes(route);
    let b = basename_of(route);
    let s = stem_of(route);
    lemma_last_pos(t, '/');
    assert forall|i: int| 0 <= i < b.len() implies #[trigger] b[i] != '/' by {
        assert(b[i] == t[last_pos(t, '/') + i]);
    }
    lemma_last_pos(b, '.');
    assert forall|i: int| 0 <= i < s.len() implies #[trigger] s[i] != '/' by {
        if !is_dot_component(b) && last_pos(b, '.') >= 2 {
            assert(s[i] == b[i]);
        }
    }
    reveal_strlit(".txt");
    let name = blob_name(s);
    assert forall|i: int| 0 <= i < name.len() implies #[trigger] name[i] != '/' by {
        if i >= s.len() {
            assert(name[i] == ".txt"@[i - s.len()]);
        }
    }
    assert(name.len() >= 4);
}

/// A route made only of identifier characters is its own stem and carries no
/// extension: looking an identifier up fetches exactly the blob stored under
/// it.
pub proof fn lemma_ident_route(id: Seq<char>)
    requires
        id.len() > 0,
        forall|i: int| 0 <= i < id.len() ==> is_ident_char(#[trigger] id[i]),
    ensures
        stem_of(id) == id,
        ext_of(id) is None,
{
    assert(id.last() != '/');
    lemma_rstrip_slashes_take(id, id.len() as int);
    assert(id.take(id.len() as int) =~= id);
    lemma_last_pos_at(id, '/', 0);
    assert(basename_of(id) =~= id);
    assert(id[0] != '.');
    assert(!is_dot_component(id));
    lemma_last_pos_at(id, '.', 0);
}

/// The extension is advisory only: appending '.' and an extension to an
/// identifier changes the extension that is reported but not the stem, so the
/// same blob is fetched.
pub proof fn lemma_route_with_extension(id: Seq<char>, e: Seq<char>)
    requires
        id.len() > 0,
        forall|i: int| 0 <= i < id.len() ==> is_ident_char(#[trigger] id[i]),
        e.len() > 0,
        forall|i: int| 0 <= i < e.len() ==> e[i] != '/' && e[i] != '.',
    ensures
        stem_of(id + seq!['.'] + e) == id,
        ext_of(id + seq!['.'] + e) == Some(e),
        stem_of(id + seq!['.'] + e) == stem_of(id),
{
    let r = id + seq!['.'] + e;
    assert(r.last() == e.last());
    assert(r.last() != '/');
    assert(forall|j: int| 0 <= j < r.len() ==> #[trigger] r[j] != '/');
    lemma_rstrip_slashes_take(r, r.len() as int);
    assert(r.take(r.len() as int) =~= r);
    lemma_last_pos_at(r, '/', 0);
    let b = basename_of(r);
    assert(b =~= r);
    assert(r[0] == id[0]);
    assert(r[0] != '.');
    assert(!is_dot_component(r));
    lemma_last_pos_at(r, '.', id.len() as int + 1);
    assert(stem_of(r) =~= id);
    assert(ext_of(r)->Some_0 =~= e);
    lemma_ident_route(id);
}

} // verus!
