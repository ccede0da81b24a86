//! The upload response and its field parsers. A successful upload answers
//! with one field per line: the full URL, the short identifier, the byte
//! count, and the deletion secret. The parsers find a field by its key in
//! such a response; formatting and parsing round-trip, which is proved below.

use vstd::prelude::*;

use crate::ident::is_ident_char;
use crate::ident::lemma_ident_char_plain;
use crate::text::dec_str_of;
use crate::text::find_char;
use crate::text::first_pos;
use crate::text::is_space;
use crate::text::lemma_concat_no_char;
use crate::text::lemma_dec_str_digits;
use crate::text::lemma_first_pos;
use crate::text::lemma_first_pos_at;
use crate::text::lemma_no_char_first_pos;
use crate::text::lemma_trimmed_one_space;
use crate::text::no_char;
use crate::text::starts_with_chars;
use crate::text::starts_with_str;
use crate::text::trim_spaces;
use crate::text::trimmed;
use crate::text::u64_to_string;

verus! {

/// The plain-text body answering an upload: scheme and host as the request
/// carried them, the identifier, the content size in bytes, and the deletion
/// secret in whole seconds.
pub open spec fn upload_response_of(
    scheme: Seq<char>,
    host: Seq<char>,
    id: Seq<char>,
    size: nat,
    secret_secs: nat,
) -> Seq<char> {
    "url: "@ + scheme + "://"@ + host + "/"@ + id + "\n"@ + "short: "@ + id + "\n"@ + "size: "@
        + dec_str_of(size) + " bytes"@ + "\n"@ + "secret: "@ + dec_str_of(secret_secs) + "\n"@
}

/// Builds the upload response body.
pub fn upload_response(scheme: &str, host: &str, id: &str, size: usize, secret_secs: u64) -> (r:
    String)
    ensures
        r@ == upload_response_of(scheme@, host@, id@, size as nat, secret_secs as nat),
{
    let size_str = u64_to_string(size as u64);
    let secret_str = u64_to_string(secret_secs);
    let r = String::from_str("url: ").concat(scheme).concat("://").concat(host).concat("/").concat(
        id,
    ).concat("\n").concat("short: ").concat(id).concat("\n").concat("size: ").concat(
        size_str.as_str(),
    ).concat(" bytes").concat("\n").concat("secret: ").concat(secret_str.as_str()).concat("\n");
    proof {
        assert(r@ =~= upload_response_of(scheme@, host@, id@, size as nat, secret_secs as nat));
    }
    r
}

/// The URL scheme named in the upload response: the reverse proxy's
/// forwarded protocol when the request carried one, plain HTTP otherwise.
pub fn choose_scheme(forwarded: Option<String>) -> (s: String)
    ensures
        forwarded is Some ==> s@ == forwarded->Some_0@,
        forwarded is None ==> s@ == "http"@,
{
    match forwarded {
        Option::Some(f) => f,
        Option::None => String::from_str("http"),
    }
}

/// The confirmation body answering a successful delete.
pub fn delete_confirmation(file_hash: &str) -> (r: String)
    ensures
        r@ == "File "@ + file_hash@ + " deleted successfully"@,
{
    String::from_str("File ").concat(file_hash).concat(" deleted successfully")
}

/// The value found for `key` in `resp`: on the first line that starts with
/// `key`, the text after the key and before the next ':', trimmed; nothing
/// when no line starts with `key`.
pub open spec fn spec_extract(resp: Seq<char>, key: Seq<char>) -> Option<Seq<char>>
    decreases resp.len(),
{
    let le = first_pos(resp, '\n');
    let line = resp.take(le);
    if starts_with_chars(line, key) {
        let after = line.subrange(key.len() as int, line.len() as int);
        Some(trimmed(after.take(first_pos(after, ':'))))
    } else if le < resp.len() {
        proof {
            lemma_first_pos(resp, '\n');
        }
        spec_extract(resp.subrange(le + 1, resp.len() as int), key)
    } else {
        None
    }
}

/// Finds the value for `key` in a response, line by line.
fn extract_field(resp: &str, key: &str) -> (r: Option<String>)
    ensures
        r.deep_view() == spec_extract(resp@, key@),
    decreases resp@.len(),
{
    let n: usize = resp.unicode_len();
    let le: usize = find_char(resp, '\n');
    proof {
        lemma_first_pos(resp@, '\n');
    }
    let line = resp.substring_char(0, le);
    proof {
        assert(line@ =~= resp@.take(le as int));
    }
    if starts_with_str(line, key) {
        let klen: usize = key.unicode_len();
        let after = line.substring_char(klen, le);
        let cp: usize = find_char(after, ':');
        proof {
            lemma_first_pos(after@, ':');
        }
        let v = after.substring_char(0, cp);
        proof {
            assert(v@ =~= after@.take(first_pos(after@, ':')));
        }
        let tv = trim_spaces(v);
        Some(String::from_str(tv))
    } else if le < n {
        extract_field(resp.substring_char(le + 1, n), key)
    } else {
        None
    }
}

/// A line that holds no newline and does not start with the key is skipped:
/// extraction continues on what follows it.
proof fn lemma_extract_skip(line: Seq<char>, rest: Seq<char>, key: Seq<char>)
    requires
        no_char(line, '\n'),
        !starts_with_chars(line, key),
    ensures
        spec_extract(line + seq!['\n'] + rest, key) == spec_extract(rest, key),
{
    let resp = line + seq!['\n'] + rest;
    assert(resp[line.len() as int] == '\n');
    assert forall|j: int| 0 <= j < line.len() implies resp[j] != '\n' by {
        assert(resp[j] == line[j]);
    }
    lemma_first_pos_at(resp, '\n', line.len() as int);
    assert(resp.take(line.len() as int) =~= line);
    assert(resp.subrange(line.len() as int + 1, resp.len() as int) =~= rest);
}

/// A line that holds no newline and starts with the key settles extraction:
/// what follows the response's first such line no longer matters.
proof fn lemma_extract_hit(line: Seq<char>, rest: Seq<char>, key: Seq<char>)
    requires
        no_char(line, '\n'),
        starts_with_chars(line, key),
    ensures
        spec_extract(line + seq!['\n'] + rest, key) == spec_extract(line, key),
{
    let resp = line + seq!['\n'] + rest;
    assert(resp[line.len() as int] == '\n');
    assert forall|j: int| 0 <= j < line.len() implies resp[j] != '\n' by {
        assert(resp[j] == line[j]);
    }
    lemma_first_pos_at(resp, '\n', line.len() as int);
    assert(resp.take(line.len() as int) =~= line);
    lemma_no_char_first_pos(line, '\n');
    assert(line.take(line.len() as int) =~= line);
    let after = line.subrange(key.len() as int, line.len() as int);
    assert(spec_extract(resp, key) == Some(trimmed(after.take(first_pos(after, ':')))));
    assert(spec_extract(line, key) == Some(trimmed(after.take(first_pos(after, ':')))));
}

/// A field line of the response's shape — the key, a single space, then a
/// value free of delimiters and of surrounding blanks — yields exactly the
/// value.
proof fn lemma_extract_value(key: Seq<char>, v: Seq<char>)
    requires
        key.len() > 0,
        key.last() == ':',
        no_char(key, '\n'),
        v.len() > 0,
        no_char(v, ':'),
        no_char(v, '\n'),
        !is_space(v[0]),
        !is_space(v.last()),
    ensures
        spec_extract(key + seq![' '] + v, key) == Some(v),
{
    let line = key + seq![' '] + v;
    assert(line.take(key.len() as int) =~= key);
    assert(starts_with_chars(line, key));
    assert(no_char(seq![' '], '\n'));
    lemma_concat_no_char(key, seq![' '], '\n');
    lemma_concat_no_char(key + seq![' '], v, '\n');
    lemma_no_char_first_pos(line, '\n');
    assert(line.take(line.len() as int) =~= line);
    let after = line.subrange(key.len() as int, line.len() as int);
    assert(after =~= seq![' '] + v);
    assert forall|i: int| 0 <= i < after.len() implies after[i] != ':' by {
        if i > 0 {
            assert(after[i] == v[i - 1]);
        }
    }
    lemma_no_char_first_pos(after, ':');
    assert(after.take(after.len() as int) =~= after);
    lemma_trimmed_one_space(v);
    assert(spec_extract(line, key) == Some(trimmed(after)));
}

/// What the parsers find in an upload response are exactly the identifier
/// and the secret that went into it: formatting and extraction round-trip.
pub proof fn lemma_upload_response_fields(
    scheme: Seq<char>,
    host: Seq<char>,
    id: Seq<char>,
    size: nat,
    secret_secs: nat,
)
    requires
        no_char(scheme, '\n'),
        no_char(host, '\n'),
        id.len() > 0,
        forall|i: int| 0 <= i < id.len() ==> is_ident_char(#[trigger] id[i]),
    ensures
        spec_extract(upload_response_of(scheme, host, id, size, secret_secs), "short:"@) == Some(
            id,
        ),
        spec_extract(upload_response_of(scheme, host, id, size, secret_secs), "secret:"@) == Some(
            dec_str_of(secret_secs),
        ),
{
    let resp = upload_response_of(scheme, host, id, size, secret_secs);
    let l1 = "url: "@ + scheme + "://"@ + host + "/"@ + id;
    let l2 = "short: "@ + id;
    let l3 = "size: "@ + dec_str_of(size) + " bytes"@;
    let l4 = "secret: "@ + dec_str_of(secret_secs);
    let r3 = l4 + seq!['\n'] + Seq::<char>::empty();
    let r2 = l3 + seq!['\n'] + r3;
    let r1 = l2 + seq!['\n'] + r2;
    reveal_strlit("url: ");
    reveal_strlit("://");
    reveal_strlit("/");
    reveal_strlit("\n");
    reveal_strlit("short: ");
    reveal_strlit("short:");
    reveal_strlit("size: ");
    reveal_strlit(" bytes");
    reveal_strlit("secret: ");
    reveal_strlit("secret:");
    assert(resp =~= l1 + seq!['\n'] + r1);
    assert forall|i: int| 0 <= i < id.len() implies id[i] != '\n' && id[i] != ':' && !is_space(
        id[i],
    ) && id[i] != ' ' by {
        lemma_ident_char_plain(id[i]);
    }
    lemma_dec_str_digits(size);
    lemma_dec_str_digits(secret_secs);
    assert forall|i: int| 0 <= i < dec_str_of(size).len() implies dec_str_of(size)[i] != '\n'
        && dec_str_of(size)[i] != ':' && !is_space(dec_str_of(size)[i]) by {
        assert(48 <= dec_str_of(size)[i] as int <= 57);
    }
    assert forall|i: int|
        0 <= i < dec_str_of(secret_secs).len() implies dec_str_of(secret_secs)[i] != '\n'
        && dec_str_of(secret_secs)[i] != ':' && !is_space(dec_str_of(secret_secs)[i]) by {
        assert(48 <= dec_str_of(secret_secs)[i] as int <= 57);
    }
    assert(no_char("url: "@, '\n'));
    assert(no_char("://"@, '\n'));
    assert(no_char("/"@, '\n'));
    assert(no_char("short: "@, '\n'));
    assert(no_char("size: "@, '\n'));
    assert(no_char(" bytes"@, '\n'));
    assert(no_char("secret: "@, '\n'));
    lemma_concat_no_char("url: "@, scheme, '\n');
    lemma_concat_no_char("url: "@ + scheme, "://"@, '\n');
    lemma_concat_no_char("url: "@ + scheme + "://"@, host, '\n');
    lemma_concat_no_char("url: "@ + scheme + "://"@ + host, "/"@, '\n');
    lemma_concat_no_char("url: "@ + scheme + "://"@ + host + "/"@, id, '\n');
    lemma_concat_no_char("short: "@, id, '\n');
    lemma_concat_no_char("size: "@, dec_str_of(size), '\n');
    lemma_concat_no_char("size: "@ + dec_str_of(size), " bytes"@, '\n');
    lemma_concat_no_char("secret: "@, dec_str_of(secret_secs), '\n');
    // the "short:" field
    let key_h = "short:"@;
    assert(!starts_with_chars(l1, key_h)) by {
        if starts_with_chars(l1, key_h) {
            assert(l1.take(key_h.len() as int)[0] == l1[0]);
            assert(l1[0] == 'u');
            assert(key_h[0] == 's');
        }
    }
    lemma_extract_skip(l1, r1, key_h);
    assert(l2 =~= key_h + seq![' '] + id);
    assert(l2.take(key_h.len() as int) =~= key_h);
    assert(starts_with_chars(l2, key_h));
    lemma_extract_value(key_h, id);
    lemma_extract_hit(l2, r2, key_h);
    // the "secret:" field
    let key_s = "secret:"@;
    assert(!starts_with_chars(l1, key_s)) by {
        if starts_with_chars(l1, key_s) {
            assert(l1.take(key_s.len() as int)[0] == l1[0]);
            assert(l1[0] == 'u');
            assert(key_s[0] == 's');
        }
    }
    assert(!starts_with_chars(l2, key_s)) by {
        if starts_with_chars(l2, key_s) {
            assert(l2.take(key_s.len() as int)[1] == l2[1]);
            assert(l2[1] == "short: "@[1]);
            assert(l2[1] == 'h');
            assert(key_s[1] == 'e');
        }
    }
    assert(!starts_with_chars(l3, key_s)) by {
        if starts_with_chars(l3, key_s) {
            assert(l3.take(key_s.len() as int)[1] == l3[1]);
            assert(l3[1] == "size: "@[1]);
            assert(l3[1] == 'i');
            assert(key_s[1] == 'e');
        }
    }
    lemma_extract_skip(l1, r1, key_s);
    lemma_extract_skip(l2, r2, key_s);
    lemma_extract_skip(l3, r3, key_s);
    assert(l4 =~= key_s + seq![' '] + dec_str_of(secret_secs));
    assert(l4.take(key_s.len() as int) =~= key_s);
    assert(starts_with_chars(l4, key_s));
    lemma_extract_value(key_s, dec_str_of(secret_secs));
    lemma_extract_hit(l4, Seq::<char>::empty(), key_s);
}

/// Finds the identifier in an upload response: the value of its "short:"
/// line.
pub fn extract_hash(response: &str) -> (r: Option<String>)
    ensures
        r.deep_view() == spec_extract(response@, "short:"@),
{
    extract_field(response, "short:")
}

/// Finds the deletion secret in an upload response: the value of its
/// "secret:" line.
pub fn extract_secret(response: &str) -> (r: Option<String>)
    ensures
        r.deep_view() == spec_extract(response@, "secret:"@),
{
    extract_field(response, "secret:")
}

} // verus!
