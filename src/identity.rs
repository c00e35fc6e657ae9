//! Player identity for browser sessions: the format of a player id, the
//! cookie that keeps it, and the owner that it stands for.
use vstd::prelude::*;
use vstd::string::StrSliceExecFns;
use vstd::string::StringExecFns;
use vstd::utf8::encode_utf8;

use crate::hex::{hex_of, is_hex_char, is_hex_digit, to_hex};
use crate::ids::Owner;
use crate::lobby::{is_white_space, is_white_space_char};

verus! {

/// Number of characters in a player id.
pub const PLAYER_ID_LEN: usize = 16;

/// The SHA-256 digest of a byte string.
pub uninterp spec fn sha256_of(data: Seq<u8>) -> Seq<u8>;

/// Relies on sha2's `Sha256::digest`: the SHA-256 digest of the bytes, which
/// depends on them alone.
#[verifier::external_body]
fn sha256(data: &[u8]) -> (r: [u8; 32])
    ensures
        r@ == sha256_of(data@),
{
    let digest = <sha2::Sha256 as sha2::Digest>::digest(data);
    digest.into()
}

/// Whether text is a well-formed player id: 16 hexadecimal digits of either case.
pub open spec fn valid_player_id(s: Seq<char>) -> bool {
    &&& s.len() == PLAYER_ID_LEN
    &&& forall|i: int| 0 <= i < s.len() ==> #[trigger] is_hex_digit(s[i])
}

/// Whether `player_id` is a well-formed player id: 16 hexadecimal digits.
pub fn is_valid_player_id(player_id: &str) -> (r: bool)
    ensures
        r == valid_player_id(player_id@),
{
    let n = player_id.unicode_len();
    if n != PLAYER_ID_LEN {
        return false;
    }
    let mut i: usize = 0;
    while i < n
        invariant
            n == player_id@.len(),
            i <= n,
            forall|j: int| 0 <= j < i ==> #[trigger] is_hex_digit(player_id@[j]),
        decreases n - i,
    {
        if !is_hex_char(player_id.get_char(i)) {
            return false;
        }
        i = i + 1;
    }
    true
}

/// The Set-Cookie value that keeps a player id in the browser for thirty days.
pub open spec fn player_id_cookie(player_id: Seq<char>) -> Seq<char> {
    "livedraft_player_id="@ + player_id + "; Path=/; HttpOnly; SameSite=Lax; Max-Age=2592000"@
}

/// The Set-Cookie header value that keeps `player_id` across page loads.
pub fn create_player_id_cookie(player_id: &str) -> (r: String)
    ensures
        r@ == player_id_cookie(player_id@),
{
    let mut r = String::from_str("livedraft_player_id=");
    r.append(player_id);
    r.append("; Path=/; HttpOnly; SameSite=Lax; Max-Age=2592000");
    r
}

/// Appends the bytes of `b` to `out`.
fn append_bytes(out: &mut Vec<u8>, b: &[u8])
    ensures
        final(out)@ == old(out)@ + b@,
{
    let mut i: usize = 0;
    while i < b.len()
        invariant
            i <= b@.len(),
            out@ == old(out)@ + b@.subrange(0, i as int),
        decreases b@.len() - i,
    {
        out.push(b[i]);
        i = i + 1;
        proof {
            assert(out@ =~= old(out)@ + b@.subrange(0, i as int));
        }
    }
    proof {
        assert(b@.subrange(0, b@.len() as int) =~= b@);
    }
}

/// The bytes hashed to give a player's owner.
pub open spec fn owner_seed(player_id: Seq<char>) -> Seq<u8> {
    encode_utf8("livedraft_player_"@) + encode_utf8(player_id)
}

/// The owner that a player id stands for: the SHA-256 digest of
/// `livedraft_player_` followed by the id. The same id always gives the
/// same owner.
pub fn player_id_to_owner(player_id: &str) -> (r: Owner)
    ensures
        r.bytes@ == sha256_of(owner_seed(player_id@)),
{
    let mut seed: Vec<u8> = Vec::new();
    append_bytes(&mut seed, "livedraft_player_".as_bytes());
    append_bytes(&mut seed, player_id.as_bytes());
    Owner { bytes: sha256(seed.as_slice()) }
}

/// The `n` bytes that write `x` in big-endian order (its low `n` bytes).
pub open spec fn be_bytes(x: nat, n: nat) -> Seq<u8>
    decreases n,
{
    if n == 0 {
        Seq::empty()
    } else {
        be_bytes(x / 256, (n - 1) as nat).push((x % 256) as u8)
    }
}

/// Appends the low `n` bytes of `x` to `out`, most significant first.
fn append_be_bytes(out: &mut Vec<u8>, x: u128, n: usize)
    ensures
        final(out)@ == old(out)@ + be_bytes(x as nat, n as nat),
    decreases n,
{
    if n == 0 {
        assert(old(out)@ + be_bytes(x as nat, 0) =~= old(out)@);
        return;
    }
    append_be_bytes(out, x / 256, n - 1);
    out.push((x % 256) as u8);
    proof {
        assert(out@ =~= old(out)@ + be_bytes(x as nat, n as nat));
    }
}

/// The bytes hashed to make a new player id from a moment and a process.
pub open spec fn session_seed(timestamp_nanos: u128, process_id: u32) -> Seq<u8> {
    encode_utf8("player_session_"@) + be_bytes(timestamp_nanos as nat, 16) + be_bytes(
        process_id as nat,
        4,
    )
}

proof fn lemma_hex_len(bytes: Seq<u8>)
    ensures
        hex_of(bytes).len() == 2 * bytes.len(),
    decreases bytes.len(),
{
    if bytes.len() > 0 {
        lemma_hex_len(bytes.drop_last());
    }
}

/// The player id that a session digest gives: its first 16 hexadecimal
/// digits, that is, its first 8 bytes in lower-case hexadecimal.
pub fn player_id_from_digest(digest: &[u8; 32]) -> (r: String)
    ensures
        r@ == hex_of(digest@).subrange(0, 16),
{
    let text = to_hex(digest);
    proof {
        lemma_hex_len(digest@);
    }
    String::from_str(text.as_str().substring_char(0, PLAYER_ID_LEN))
}

/// A new player id for a session: the first 16 hexadecimal digits of the
/// SHA-256 digest of `player_session_`, the time in nanoseconds (16 bytes,
/// big-endian) and the process id (4 bytes, big-endian).
pub fn player_id_from_seed(timestamp_nanos: u128, process_id: u32) -> (r: String)
    ensures
        r@ == hex_of(sha256_of(session_seed(timestamp_nanos, process_id))).subrange(0, 16),
{
    let mut seed: Vec<u8> = Vec::new();
    append_bytes(&mut seed, "player_session_".as_bytes());
    append_be_bytes(&mut seed, timestamp_nanos, 16);
    append_be_bytes(&mut seed, process_id as u128, 4);
    proof {
        assert(seed@ =~= session_seed(timestamp_nanos, process_id));
    }
    player_id_from_digest(&sha256(seed.as_slice()))
}

/// The text of the cookie's name and the `=` that follows it.
pub open spec fn cookie_prefix() -> Seq<char> {
    "livedraft_player_id="@
}

/// Index of the first `;` in `s`, or its length when there is none.
pub open spec fn first_semicolon(s: Seq<char>) -> nat
    decreases s.len(),
{
    if s.len() == 0 {
        0
    } else if s[0] == ';' {
        0
    } else {
        1 + first_semicolon(s.skip(1))
    }
}

/// Number of white-space characters at the start of `s`.
pub open spec fn leading_white_space(s: Seq<char>) -> nat
    decreases s.len(),
{
    if s.len() > 0 && is_white_space(s[0]) {
        1 + leading_white_space(s.skip(1))
    } else {
        0
    }
}

/// The player id that one cookie carries: trimmed of white space at both
/// ends, the cookie must be `livedraft_player_id=` followed by a well-formed
/// player id.
pub open spec fn cookie_player_id(cookie: Seq<char>) -> Option<Seq<char>> {
    cookie_player_id_rest(cookie.skip(leading_white_space(cookie) as int))
}

/// The player id that a cookie carries, once its leading white space is gone.
pub open spec fn cookie_player_id_rest(rest: Seq<char>) -> Option<Seq<char>> {
    if rest.len() >= 36 && rest.take(20) == cookie_prefix() && valid_player_id(
        rest.subrange(20, 36),
    ) && forall|j: int| 36 <= j < rest.len() ==> #[trigger] is_white_space(rest[j]) {
        Some(rest.subrange(20, 36))
    } else {
        None
    }
}

/// The player id of the first cookie that carries one, in a Cookie header
/// whose cookies are separated by `;`.
pub open spec fn cookies_player_id(s: Seq<char>) -> Option<Seq<char>>
    decreases s.len(),
{
    let e = first_semicolon(s) as int;
    match cookie_player_id(s.take(e)) {
        Some(v) => Some(v),
        None => if e < s.len() {
            cookies_player_id(s.skip(e + 1))
        } else {
            None
        },
    }
}

/// The player id that a request carries: the header's value when it is a
/// well-formed id, else the id of the first cookie that carries one.
pub open spec fn request_player_id(header: Option<Seq<char>>, cookies: Option<Seq<char>>) -> Option<
    Seq<char>,
> {
    match header {
        Some(h) if valid_player_id(h) => Some(h),
        _ => match cookies {
            Some(c) => cookies_player_id(c),
            None => None,
        },
    }
}

proof fn lemma_first_semicolon(s: Seq<char>, k: int)
    requires
        0 <= k <= s.len(),
        forall|j: int| 0 <= j < k ==> s[j] != ';',
        k == s.len() || s[k] == ';',
    ensures
        first_semicolon(s) == k,
    decreases k,
{
    if k > 0 {
        lemma_first_semicolon(s.skip(1), k - 1);
    }
}

proof fn lemma_leading_white_space(s: Seq<char>, k: int)
    requires
        0 <= k <= s.len(),
        forall|j: int| 0 <= j < k ==> is_white_space(#[trigger] s[j]),
        k == s.len() || !is_white_space(s[k]),
    ensures
        leading_white_space(s) == k,
    decreases k,
{
    if k > 0 {
        assert forall|j: int| 0 <= j < k - 1 implies is_white_space(#[trigger] s.skip(1)[j]) by {
            assert(s.skip(1)[j] == s[j + 1]);
        }
        lemma_leading_white_space(s.skip(1), k - 1);
    }
}

/// The player id that the cookie in `s[start..end]` carries, if any.
fn cookie_player_id_at(s: &str, start: usize, end: usize) -> (r: Option<String>)
    requires
        start <= end <= s@.len(),
    ensures
        r matches Some(v) ==> cookie_player_id(s@.subrange(start as int, end as int)) == Some(v@),
        r is None ==> cookie_player_id(s@.subrange(start as int, end as int)) is None,
{
    let ghost seg = s@.subrange(start as int, end as int);
    let mut a = start;
    while a < end && is_white_space_char(s.get_char(a))
        invariant
            start <= a <= end <= s@.len(),
            seg == s@.subrange(start as int, end as int),
            forall|j: int| start <= j < a ==> is_white_space(#[trigger] s@[j]),
        decreases end - a,
    {
        a = a + 1;
    }
    proof {
        assert forall|j: int| 0 <= j < a - start implies is_white_space(#[trigger] seg[j]) by {
            assert(seg[j] == s@[start + j]);
        }
        lemma_leading_white_space(seg, a - start);
    }
    let ghost rest = seg.skip(a - start);
    assert(rest == s@.subrange(a as int, end as int));
    assert(cookie_player_id(seg) == cookie_player_id_rest(rest));
    if end - a < 36 {
        return None;
    }
    let prefix = "livedraft_player_id=";
    proof {
        reveal_strlit("livedraft_player_id=");
    }
    let mut i: usize = 0;
    while i < 20
        invariant
            a + 36 <= end <= s@.len(),
            prefix@ == cookie_prefix(),
            prefix@.len() == 20,
            i <= 20,
            rest == s@.subrange(a as int, end as int),
            cookie_player_id(seg) == cookie_player_id_rest(rest),
            seg == s@.subrange(start as int, end as int),
            forall|j: int| 0 <= j < i ==> rest[j] == prefix@[j],
        decreases 20 - i,
    {
        if s.get_char(a + i) != prefix.get_char(i) {
            proof {
                assert(rest.take(20)[i as int] != cookie_prefix()[i as int]);
            }
            return None;
        }
        i = i + 1;
    }
    proof {
        assert(rest.take(20) =~= cookie_prefix());
    }
    let mut k: usize = 20;
    while k < 36
        invariant
            a + 36 <= end <= s@.len(),
            20 <= k <= 36,
            rest == s@.subrange(a as int, end as int),
            cookie_player_id(seg) == cookie_player_id_rest(rest),
            seg == s@.subrange(start as int, end as int),
            rest.take(20) == cookie_prefix(),
            forall|j: int| 20 <= j < k ==> is_hex_digit(#[trigger] rest[j]),
        decreases 36 - k,
    {
        if !is_hex_char(s.get_char(a + k)) {
            proof {
                assert(!is_hex_digit(rest.subrange(20, 36)[k - 20]));
            }
            return None;
        }
        k = k + 1;
    }
    proof {
        assert forall|j: int| 0 <= j < 16 implies #[trigger] is_hex_digit(rest.subrange(20, 36)[j]) by {
            assert(rest.subrange(20, 36)[j] == rest[j + 20]);
        }
    }
    let mut b = a + 36;
    while b < end
        invariant
            a + 36 <= b <= end <= s@.len(),
            rest == s@.subrange(a as int, end as int),
            cookie_player_id(seg) == cookie_player_id_rest(rest),
            seg == s@.subrange(start as int, end as int),
            rest.take(20) == cookie_prefix(),
            valid_player_id(rest.subrange(20, 36)),
            forall|j: int| 36 <= j < b - a ==> is_white_space(#[trigger] rest[j]),
        decreases end - b,
    {
        if !is_white_space_char(s.get_char(b)) {
            proof {
                assert(!is_white_space(rest[b - a]));
            }
            return None;
        }
        b = b + 1;
    }
    let v = s.substring_char(a + 20, a + 36);
    proof {
        assert(v@ =~= rest.subrange(20, 36));
    }
    Some(String::from_str(v))
}

/// The player id of the first cookie that carries one, in a Cookie header
/// whose cookies are separated by `;`.
pub fn player_id_from_cookies(cookies: &str) -> (r: Option<String>)
    ensures
        r matches Some(v) ==> cookies_player_id(cookies@) == Some(v@),
        r is None ==> cookies_player_id(cookies@) is None,
{
    let n = cookies.unicode_len();
    let mut start: usize = 0;
    proof {
        assert(cookies@.skip(0) =~= cookies@);
    }
    loop
        invariant
            n == cookies@.len(),
            start <= n,
            cookies_player_id(cookies@) == cookies_player_id(cookies@.skip(start as int)),
        decreases n - start,
    {
        let ghost t = cookies@.skip(start as int);
        let mut end = start;
        while end < n && cookies.get_char(end) != ';'
            invariant
                start <= end <= n,
                n == cookies@.len(),
                forall|j: int| start <= j < end ==> cookies@[j] != ';',
            decreases n - end,
        {
            end = end + 1;
        }
        proof {
            lemma_first_semicolon(t, end - start);
            assert(t.take(end - start) =~= cookies@.subrange(start as int, end as int));
        }
        match cookie_player_id_at(cookies, start, end) {
            Some(v) => {
                return Some(v);
            },
            None => {},
        }
        if end == n {
            return None;
        }
        proof {
            assert(t.skip(end - start + 1) =~= cookies@.skip(end + 1));
        }
        start = end + 1;
    }
}

/// The text of an optional string, if any.
pub open spec fn text_of(s: Option<&str>) -> Option<Seq<char>> {
    match s {
        Some(t) => Some(t@),
        None => None,
    }
}

/// The player id that a request carries: the value of its player-id header
/// when that is a well-formed id, else the id of the first cookie that
/// carries one; none when neither does.
pub fn select_player_id(header: Option<&str>, cookies: Option<&str>) -> (r: Option<String>)
    ensures
        r matches Some(v) ==> request_player_id(text_of(header), text_of(cookies))
            == Some(v@),
        r is None ==> request_player_id(text_of(header), text_of(cookies)) is None,
{
    if let Some(h) = header {
        if is_valid_player_id(h) {
            return Some(String::from_str(h));
        }
    }
    match cookies {
        Some(c) => player_id_from_cookies(c),
        None => None,
    }
}

} // verus!
