//! Identifiers, handled as byte strings.
//!
//! A fully-qualified user id has the shape `@localpart:servername`: a `@`
//! sigil, a nonempty localpart without `:`, then the home-server name
//! (which may itself carry a `:port` suffix). The home server of a user is
//! everything after the first `:`.

use vstd::prelude::*;

verus! {

/// The `@` sigil that opens a user id.
pub const USER_SIGIL: u8 = 64;

/// The `:` separator between localpart and server name.
pub const ID_SEPARATOR: u8 = 58;

/// The first position `>= i` holding `:`, or the length if there is none.
pub open spec fn spec_find_separator(s: Seq<u8>, i: int) -> int
    decreases s.len() - i,
{
    if i < 0 || i >= s.len() {
        s.len() as int
    } else if s[i] == ID_SEPARATOR {
        i
    } else {
        spec_find_separator(s, i + 1)
    }
}

/// A well-formed fully-qualified user id: the sigil, a nonempty localpart,
/// a separator, and a nonempty server name.
pub open spec fn valid_user_id(s: Seq<u8>) -> bool {
    let c = spec_find_separator(s, 1);
    &&& s.len() >= 1
    &&& s[0] == USER_SIGIL
    &&& 2 <= c
    &&& c + 1 < s.len()
}

/// The home-server identifier of a user id: the bytes after the first `:`.
pub open spec fn spec_server_part(s: Seq<u8>) -> Seq<u8> {
    s.subrange(spec_find_separator(s, 1) + 1, s.len() as int)
}

/// Whether `id` is a well-formed fully-qualified user id.
pub fn is_valid_user_id(id: &Vec<u8>) -> (r: bool)
    ensures
        r == valid_user_id(id@),
{
    let n = id.len();
    if n < 1 || id[0] != USER_SIGIL {
        return false;
    }
    let mut i: usize = 1;
    while i < n
        invariant
            n == id@.len(),
            n >= 1,
            id@[0] == USER_SIGIL,
            1 <= i <= n,
            spec_find_separator(id@, 1) == spec_find_separator(id@, i as int),
            forall|j: int| 1 <= j < i ==> id@[j] != ID_SEPARATOR,
        decreases n - i,
    {
        if id[i] == ID_SEPARATOR {
            assert(spec_find_separator(id@, i as int) == i);
            return i >= 2 && i + 1 < n;
        }
        i = i + 1;
    }
    assert(spec_find_separator(id@, n as int) == n);
    false
}

/// Extracts the home-server identifier from a well-formed user id.
pub fn server_part(id: &Vec<u8>) -> (r: Vec<u8>)
    requires
        valid_user_id(id@),
    ensures
        r@ =~= spec_server_part(id@),
{
    let n = id.len();
    let mut i: usize = 1;
    while i < n && id[i] != ID_SEPARATOR
        invariant
            n == id@.len(),
            1 <= i <= n,
            spec_find_separator(id@, 1) == spec_find_separator(id@, i as int),
        decreases n - i,
    {
        i = i + 1;
    }
    assert(i < n);
    assert(spec_find_separator(id@, 1) == i);
    let mut r: Vec<u8> = Vec::new();
    let mut j: usize = i + 1;
    while j < n
        invariant
            n == id@.len(),
            i + 1 <= j <= n,
            r@ =~= id@.subrange(i + 1, j as int),
        decreases n - j,
    {
        r.push(id[j]);
        j = j + 1;
    }
    r
}

/// Whether two byte strings hold the same bytes.
pub fn bytes_eq(a: &Vec<u8>, b: &Vec<u8>) -> (r: bool)
    ensures
        r == (a@ == b@),
{
    let n = a.len();
    if n != b.len() {
        return false;
    }
    let mut i: usize = 0;
    while i < n
        invariant
            n == a@.len() == b@.len(),
            0 <= i <= n,
            forall|j: int| 0 <= j < i ==> a@[j] == b@[j],
        decreases n - i,
    {
        if a[i] != b[i] {
            return false;
        }
        i = i + 1;
    }
    proof {
        assert(a@ =~= b@);
    }
    true
}

/// Copies a byte string.
pub fn clone_bytes(v: &Vec<u8>) -> (r: Vec<u8>)
    ensures
        r@ =~= v@,
{
    let n = v.len();
    let mut r: Vec<u8> = Vec::new();
    let mut i: usize = 0;
    while i < n
        invariant
            n == v@.len(),
            0 <= i <= n,
            r@ =~= v@.subrange(0, i as int),
        decreases n - i,
    {
        r.push(v[i]);
        i = i + 1;
    }
    r
}

} // verus!
