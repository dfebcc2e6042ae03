//! Signed-in operator sessions: identifiers, CSRF tokens and the store that
//! holds one record per session until it expires.

use vstd::prelude::*;
use vstd::utf8::{encode_utf8_decode_utf8, decode_utf8};
use vstd::string::StringSliceAdditionalSpecFns;

use crate::permissions::Capabilities;
use crate::text::{ascii_lower, ascii_lowercase};

verus! {

/// A lowercase hexadecimal digit, as a formatted UUID writes them.
pub open spec fn is_lower_hex_digit(c: char) -> bool {
    ('0' <= c && c <= '9') || ('a' <= c && c <= 'f')
}

/// A UUID in the hyphenated lowercase form that `Uuid`'s `Display` writes:
/// 36 characters, hyphens at 8, 13, 18 and 23, lowercase hex elsewhere.
pub open spec fn is_canonical_uuid(s: Seq<char>) -> bool {
    &&& s.len() == 36
    &&& forall|i: int|
        0 <= i < 36 ==> if i == 8 || i == 13 || i == 18 || i == 23 {
            #[trigger] s[i] == '-'
        } else {
            is_lower_hex_digit(s[i])
        }
}

/// The lengths of the four textual UUID forms that `Uuid::parse_str`
/// accepts: simple, hyphenated, braced and URN.
pub open spec fn is_uuid_text_length(n: nat) -> bool {
    n == 32 || n == 36 || n == 38 || n == 45
}

/// A hexadecimal digit of either case, as `Uuid::parse_str` reads them.
pub open spec fn is_hex_char(c: char) -> bool {
    ('0' <= c && c <= '9') || ('a' <= c && c <= 'f') || ('A' <= c && c <= 'F')
}

/// 36 characters with hyphens at 8, 13, 18 and 23 and hexadecimal digits
/// of either case elsewhere.
pub open spec fn is_hyphenated_uuid(s: Seq<char>) -> bool {
    &&& s.len() == 36
    &&& forall|i: int|
        0 <= i < 36 ==> if i == 8 || i == 13 || i == 18 || i == 23 {
            #[trigger] s[i] == '-'
        } else {
            is_hex_char(s[i])
        }
}

/// 32 hexadecimal digits of either case.
pub open spec fn is_simple_uuid(s: Seq<char>) -> bool {
    s.len() == 32 && forall|i: int| 0 <= i < 32 ==> is_hex_char(#[trigger] s[i])
}

/// The 32 digits of a simple UUID with the four hyphens put in.
pub open spec fn with_hyphens(d: Seq<char>) -> Seq<char> {
    d.subrange(0, 8) + seq!['-'] + d.subrange(8, 12) + seq!['-'] + d.subrange(12, 16) + seq!['-'] + d.subrange(
        16,
        20,
    ) + seq!['-'] + d.subrange(20, 32)
}

/// What `Uuid::parse_str` followed by `to_string` gives for a text: the
/// canonical form of the UUID it names, or nothing when it names none.
/// It reads 32 digits, a hyphenated UUID, one in braces, or one after a
/// `urn:uuid:` prefix of any case, and writes the hyphenated form in
/// lower case.
pub open spec fn uuid_canonical_text(s: Seq<char>) -> Option<Seq<char>> {
    if is_simple_uuid(s) {
        Some(ascii_lowercase(with_hyphens(s)))
    } else if is_hyphenated_uuid(s) {
        Some(ascii_lowercase(s))
    } else if s.len() == 38 && s[0] == '{' && s[37] == '}' && is_hyphenated_uuid(s.subrange(1, 37)) {
        Some(ascii_lowercase(s.subrange(1, 37)))
    } else if s.len() == 45 && ascii_lowercase(s.subrange(0, 9)) == "urn:uuid:"@ && is_hyphenated_uuid(
        s.subrange(9, 45),
    ) {
        Some(ascii_lowercase(s.subrange(9, 45)))
    } else {
        None
    }
}

/// A fresh random UUID in canonical form (`Uuid::new_v4` and its
/// `Display`).
///
/// The value is random; only its shape is stated. `new_v4` panics when the
/// operating system cannot supply random bytes.
#[verifier::external_body]
fn random_uuid_text() -> (s: String)
    ensures
        is_canonical_uuid(s@),
{
    uuid::Uuid::new_v4().to_string()
}

/// A hyphenated UUID in lower case is the canonical form.
proof fn lemma_lowercase_hyphenated_is_canonical(s: Seq<char>)
    requires
        is_hyphenated_uuid(s),
    ensures
        is_canonical_uuid(ascii_lowercase(s)),
{
    let t = ascii_lowercase(s);
    assert forall|i: int| 0 <= i < 36 implies if i == 8 || i == 13 || i == 18 || i == 23 {
        #[trigger] t[i] == '-'
    } else {
        is_lower_hex_digit(t[i])
    } by {
        assert(t[i] == ascii_lower(s[i]));
        if !(i == 8 || i == 13 || i == 18 || i == 23) {
            assert(is_hex_char(s[i]));
        } else {
            assert(s[i] == '-');
        }
    }
}

proof fn lemma_simple_with_hyphens(d: Seq<char>)
    requires
        is_simple_uuid(d),
    ensures
        is_hyphenated_uuid(with_hyphens(d)),
{
    let h = with_hyphens(d);
    assert forall|i: int| 0 <= i < 36 implies if i == 8 || i == 13 || i == 18 || i == 23 {
        #[trigger] h[i] == '-'
    } else {
        is_hex_char(h[i])
    } by {
        if i < 8 {
            assert(h[i] == d[i]);
        } else if 8 < i < 13 {
            assert(h[i] == d[i - 1]);
        } else if 13 < i < 18 {
            assert(h[i] == d[i - 2]);
        } else if 18 < i < 23 {
            assert(h[i] == d[i - 3]);
        } else if 23 < i {
            assert(h[i] == d[i - 4]);
        }
    }
}

/// What a successful parse gives is the canonical form, from a text of
/// one of the four lengths; a canonical text parses to itself.
proof fn lemma_uuid_canonical_text(s: Seq<char>)
    ensures
        uuid_canonical_text(s) matches Some(t) ==> is_canonical_uuid(t),
        uuid_canonical_text(s) is Some ==> is_uuid_text_length(s.len()),
        is_canonical_uuid(s) ==> uuid_canonical_text(s) == Some(s),
{
    if is_simple_uuid(s) {
        lemma_simple_with_hyphens(s);
        lemma_lowercase_hyphenated_is_canonical(with_hyphens(s));
    } else if is_hyphenated_uuid(s) {
        lemma_lowercase_hyphenated_is_canonical(s);
    } else if s.len() == 38 && s[0] == '{' && s[37] == '}' && is_hyphenated_uuid(s.subrange(1, 37)) {
        lemma_lowercase_hyphenated_is_canonical(s.subrange(1, 37));
    } else if s.len() == 45 && ascii_lowercase(s.subrange(0, 9)) == "urn:uuid:"@ && is_hyphenated_uuid(
        s.subrange(9, 45),
    ) {
        lemma_lowercase_hyphenated_is_canonical(s.subrange(9, 45));
    }
    if is_canonical_uuid(s) {
        assert forall|i: int| 0 <= i < 36 implies if i == 8 || i == 13 || i == 18 || i == 23 {
            #[trigger] s[i] == '-'
        } else {
            is_hex_char(s[i])
        } by {
            if !(i == 8 || i == 13 || i == 18 || i == 23) {
                assert(is_lower_hex_digit(s[i]));
            }
        }
        assert(is_hyphenated_uuid(s));
        assert(!is_simple_uuid(s));
        assert(ascii_lowercase(s) =~= s) by {
            assert forall|i: int| 0 <= i < s.len() implies ascii_lowercase(s)[i] == s[i] by {
                if i == 8 || i == 13 || i == 18 || i == 23 {
                    assert(s[i] == '-');
                } else {
                    assert(is_lower_hex_digit(s[i]));
                }
            }
        }
    }
}

/// `Uuid::parse_str`, and the canonical text of what it parsed
/// (`Uuid`'s `Display`). Claimed: the text is `uuid_canonical_text` of the
/// input, and there is none exactly when that gives none.
#[verifier::external_body]
fn parse_uuid_text(s: &str) -> (r: Option<String>)
    ensures
        r matches Some(t) ==> Some(t@) == uuid_canonical_text(s@),
        r is None ==> uuid_canonical_text(s@) is None,
{
    match uuid::Uuid::parse_str(s) {
        Ok(parsed) => Some(parsed.to_string()),
        Err(_) => None,
    }
}

/// The session identifier that the browser carries in its cookie.
pub struct SessionId(String);

impl View for SessionId {
    type V = Seq<char>;

    closed spec fn view(&self) -> Seq<char> {
        self.0@
    }
}

/// The text given was not a UUID.
#[derive(Debug, Clone, Copy, PartialEq, Eq)]
pub struct InvalidSessionId;

impl SessionId {
    /// A fresh random identifier.
    pub fn new() -> (id: SessionId)
        ensures
            is_canonical_uuid(id@),
    {
        SessionId(random_uuid_text())
    }

    pub fn expose_for_cookie(&self) -> (s: &str)
        ensures
            s@ == self@,
    {
        self.0.as_str()
    }

    /// Reads an identifier back from a cookie value: a UUID in any textual
    /// form, kept in canonical form.
    pub fn parse(value: &str) -> (r: Result<SessionId, InvalidSessionId>)
        ensures
            r matches Ok(id) ==> Some(id@) == uuid_canonical_text(value@),
            r matches Ok(id) ==> is_canonical_uuid(id@),
            r is Ok ==> is_uuid_text_length(value@.len()),
            r is Err ==> uuid_canonical_text(value@) is None,
            is_canonical_uuid(value@) ==> (r is Ok && r.unwrap()@ == value@),
    {
        proof {
            lemma_uuid_canonical_text(value@);
        }
        match parse_uuid_text(value) {
            Some(text) => Ok(SessionId(text)),
            None => Err(InvalidSessionId),
        }
    }

    pub fn same_as(&self, other: &SessionId) -> (b: bool)
        ensures
            b == (self@ == other@),
    {
        self.0 == other.0
    }

    pub fn duplicate(&self) -> (id: SessionId)
        ensures
            id == *self,
    {
        SessionId(self.0.clone())
    }
}

impl Default for SessionId {
    /// A fresh random identifier, as `SessionId::new` makes one.
    fn default() -> (id: SessionId)
        ensures
            is_canonical_uuid(id@),
    {
        SessionId::new()
    }
}

impl PartialEq for SessionId {
    fn eq(&self, other: &SessionId) -> (b: bool) {
        self.0 == other.0
    }
}

impl vstd::std_specs::cmp::PartialEqSpecImpl for SessionId {
    open spec fn obeys_eq_spec() -> bool {
        true
    }

    open spec fn eq_spec(&self, other: &SessionId) -> bool {
        self@ == other@
    }
}

impl<'a> TryFrom<&'a str> for SessionId {
    type Error = InvalidSessionId;

    /// Reads an identifier from a cookie value, as `SessionId::parse` does.
    fn try_from(value: &'a str) -> (r: Result<SessionId, InvalidSessionId>)
        ensures
            r matches Ok(id) ==> Some(id@) == uuid_canonical_text(value@),
            r matches Ok(id) ==> is_canonical_uuid(id@),
            r is Ok ==> is_uuid_text_length(value@.len()),
            r is Err ==> uuid_canonical_text(value@) is None,
            is_canonical_uuid(value@) ==> (r is Ok && r.unwrap()@ == value@),
    {
        SessionId::parse(value)
    }
}

impl<'a> vstd::std_specs::convert::TryFromSpecImpl<&'a str> for SessionId {
    /// What a conversion gives is stated by `SessionId::parse`, which it
    /// calls; no spec value of a `SessionId` can be built from text.
    open spec fn obeys_try_from_spec() -> bool {
        false
    }

    open spec fn try_from_spec(value: &'a str) -> Result<SessionId, InvalidSessionId> {
        Err(InvalidSessionId)
    }
}

/// The per-session secret that a mutation request must carry.
///
/// The session cookie alone does not prove that the operator asked for the
/// mutation: a browser sends the cookie with a cross-origin form post too.
/// Each rendered mutation form carries this token in a hidden field, and each
/// JSON mutation carries it in the `x-krabka-csrf` header. A page on another
/// origin cannot read the token, so it cannot forge the request.
pub struct CsrfToken(String);

impl View for CsrfToken {
    type V = Seq<char>;

    closed spec fn view(&self) -> Seq<char> {
        self.0@
    }
}

proof fn lemma_utf8_injective(a: Seq<char>, b: Seq<char>)
    ensures
        vstd::utf8::encode_utf8(a) == vstd::utf8::encode_utf8(b) ==> a == b,
{
    encode_utf8_decode_utf8(a);
    encode_utf8_decode_utf8(b);
}

impl Default for CsrfToken {
    /// A fresh random token, as `CsrfToken::new` makes one.
    fn default() -> (t: CsrfToken)
        ensures
            is_canonical_uuid(t@),
    {
        CsrfToken::new()
    }
}

impl PartialEq for CsrfToken {
    fn eq(&self, other: &CsrfToken) -> (b: bool) {
        self.0 == other.0
    }
}

impl vstd::std_specs::cmp::PartialEqSpecImpl for CsrfToken {
    open spec fn obeys_eq_spec() -> bool {
        true
    }

    open spec fn eq_spec(&self, other: &CsrfToken) -> bool {
        self@ == other@
    }
}

impl CsrfToken {
    /// A fresh random token.
    pub fn new() -> (t: CsrfToken)
        ensures
            is_canonical_uuid(t@),
    {
        CsrfToken(random_uuid_text())
    }

    /// A token with a chosen value.
    pub fn from_value(value: String) -> (t: CsrfToken)
        ensures
            t@ == value@,
    {
        CsrfToken(value)
    }

    /// The token value to write into a rendered form or to compare a header
    /// against.
    pub fn expose_for_form(&self) -> (s: &str)
        ensures
            s@ == self@,
    {
        self.0.as_str()
    }

    pub fn duplicate(&self) -> (t: CsrfToken)
        ensures
            t == *self,
    {
        CsrfToken(self.0.clone())
    }

    /// Compares the token with a request-supplied value in constant time for
    /// the value length, so a wrong token leaks no position information.
    pub fn matches(&self, candidate: &str) -> (b: bool)
        ensures
            b == (self@ == candidate@),
    {
        let expected = self.0.as_str().as_bytes();
        let supplied = candidate.as_bytes();
        proof {
            lemma_utf8_injective(self@, candidate@);
        }
        if expected.len() != supplied.len() {
            return false;
        }
        let mut difference: u8 = 0;
        let mut i: usize = 0;
        while i < expected.len()
            invariant
                expected.len() == supplied.len(),
                i <= expected.len(),
                (difference == 0) == (expected@.subrange(0, i as int) =~= supplied@.subrange(0, i as int)),
            decreases expected.len() - i,
        {
            let x = expected[i];
            let y = supplied[i];
            let old_difference = difference;
            difference = difference | (x ^ y);
            assert((difference == 0) == (old_difference == 0 && x == y)) by (bit_vector)
                requires
                    difference == old_difference | (x ^ y),
            ;
            let ghost pe = expected@.subrange(0, i as int);
            let ghost ps = supplied@.subrange(0, i as int);
            assert(expected@.subrange(0, i + 1) =~= pe.push(x));
            assert(supplied@.subrange(0, i + 1) =~= ps.push(y));
            assert((pe.push(x) =~= ps.push(y)) == (pe =~= ps && x == y)) by {
                if pe.push(x) =~= ps.push(y) {
                    assert(pe.push(x).drop_last() =~= pe);
                    assert(ps.push(y).drop_last() =~= ps);
                    assert(pe.push(x)[i as int] == x);
                    assert(ps.push(y)[i as int] == y);
                }
            }
            i = i + 1;
        }
        assert(expected@.subrange(0, i as int) == expected@);
        assert(supplied@.subrange(0, i as int) == supplied@);
        difference == 0
    }
}


#[derive(Debug, Clone, PartialEq, Eq)]
pub struct SessionUser {
    pub username: String,
    pub principal: String,
}

impl SessionUser {
    pub fn duplicate(&self) -> (u: SessionUser)
        ensures
            u == *self,
    {
        SessionUser { username: self.username.clone(), principal: self.principal.clone() }
    }
}

/// The password a signed-in operator gave, kept to open broker connections
/// on the operator's behalf.
pub struct SessionCredentials {
    password: String,
}

impl View for SessionCredentials {
    type V = Seq<char>;

    closed spec fn view(&self) -> Seq<char> {
        self.password@
    }
}

impl PartialEq for SessionCredentials {
    fn eq(&self, other: &SessionCredentials) -> (b: bool) {
        self.password == other.password
    }
}

impl vstd::std_specs::cmp::PartialEqSpecImpl for SessionCredentials {
    open spec fn obeys_eq_spec() -> bool {
        true
    }

    open spec fn eq_spec(&self, other: &SessionCredentials) -> bool {
        self@ == other@
    }
}

impl SessionCredentials {
    pub fn scram_sha512(password: String) -> (c: SessionCredentials)
        ensures
            c@ == password@,
    {
        SessionCredentials { password }
    }

    pub fn password(&self) -> (p: &str)
        ensures
            p@ == self@,
    {
        self.password.as_str()
    }

    pub fn duplicate(&self) -> (c: SessionCredentials)
        ensures
            c == *self,
    {
        SessionCredentials { password: self.password.clone() }
    }
}

/// One signed-in session.
///
/// `expires_at` is a point on the store's clock: nanoseconds since the
/// store was created.
pub struct SessionRecord {
    pub user: SessionUser,
    pub credentials: Option<SessionCredentials>,
    /// What the operator's ACLs permit, derived once at login.
    pub capabilities: Capabilities,
    pub csrf_token: CsrfToken,
    pub expires_at: u64,
}

impl SessionRecord {
    pub open spec fn spec_is_expired(&self, now: u64) -> bool {
        now >= self.expires_at
    }

    pub fn is_expired(&self, now: u64) -> (b: bool)
        ensures
            b == self.spec_is_expired(now),
    {
        now >= self.expires_at
    }

    pub fn duplicate(&self) -> (r: SessionRecord)
        ensures
            r == *self,
    {
        let credentials = match &self.credentials {
            Some(c) => Some(c.duplicate()),
            None => None,
        };
        SessionRecord {
            user: self.user.duplicate(),
            credentials,
            capabilities: self.capabilities,
            csrf_token: self.csrf_token.duplicate(),
            expires_at: self.expires_at,
        }
    }
}

/// When a session created at `now` expires: `ttl` later, or at once when
/// that point lies beyond the clock's range.
pub open spec fn expiry(now: u64, ttl: u64) -> u64 {
    if now + ttl <= u64::MAX {
        (now + ttl) as u64
    } else {
        now
    }
}

/// The sessions of `m` that have not expired at `now`.
pub open spec fn live_at(m: Map<Seq<char>, SessionRecord>, now: u64) -> Map<Seq<char>, SessionRecord> {
    Map::new(|k: Seq<char>| m.dom().contains(k) && !m[k].spec_is_expired(now), |k: Seq<char>| m[k])
}

/// The record that a new session starts with.
pub open spec fn fresh_record(
    user: SessionUser,
    credentials: Option<SessionCredentials>,
    capabilities: Capabilities,
    csrf_token: CsrfToken,
    expires_at: u64,
) -> SessionRecord {
    SessionRecord { user, credentials, capabilities, csrf_token, expires_at }
}

/// What looking `id` up at `now` answers: its record while the session
/// lives, nothing once it has expired or when there is none.
pub open spec fn lookup_at(m: Map<Seq<char>, SessionRecord>, id: Seq<char>, now: u64) -> Option<SessionRecord> {
    if m.dom().contains(id) && !m[id].spec_is_expired(now) {
        Some(m[id])
    } else {
        None
    }
}

/// The sessions after looking `id` up at `now`: an expired record is
/// dropped, everything else stays.
pub open spec fn after_lookup(m: Map<Seq<char>, SessionRecord>, id: Seq<char>, now: u64) -> Map<Seq<char>, SessionRecord> {
    if m.dom().contains(id) && m[id].spec_is_expired(now) {
        m.remove(id)
    } else {
        m
    }
}

/// The map that a list of entries stands for.
pub open spec fn entries_map(s: Seq<(SessionId, SessionRecord)>) -> Map<Seq<char>, SessionRecord>
    decreases s.len(),
{
    if s.len() == 0 {
        Map::empty()
    } else {
        entries_map(s.drop_last()).insert(s.last().0@, s.last().1)
    }
}

pub open spec fn unique_ids(s: Seq<(SessionId, SessionRecord)>) -> bool {
    forall|i: int, j: int| 0 <= i < j < s.len() ==> s[i].0@ != s[j].0@
}

proof fn lemma_entries_map(s: Seq<(SessionId, SessionRecord)>)
    requires
        unique_ids(s),
    ensures
        entries_map(s).dom().finite(),
        entries_map(s).dom().len() == s.len(),
        forall|i: int|
            0 <= i < s.len() ==> #[trigger] entries_map(s).dom().contains(s[i].0@) && entries_map(s)[s[i].0@]
                == s[i].1,
        forall|k: Seq<char>|
            #[trigger] entries_map(s).dom().contains(k) ==> exists|i: int| 0 <= i < s.len() && s[i].0@ == k,
    decreases s.len(),
{
    if s.len() > 0 {
        let t = s.drop_last();
        assert(unique_ids(t));
        lemma_entries_map(t);
        let k = s.last().0@;
        assert(!entries_map(t).dom().contains(k)) by {
            if entries_map(t).dom().contains(k) {
                let i = choose|i: int| 0 <= i < t.len() && t[i].0@ == k;
                assert(s[i].0@ == s[s.len() - 1].0@);
            }
        }
        assert forall|i: int| 0 <= i < s.len() implies #[trigger] entries_map(s).dom().contains(s[i].0@)
            && entries_map(s)[s[i].0@] == s[i].1 by {
            if i < s.len() - 1 {
                assert(t[i] == s[i]);
                assert(s[i].0@ != k);
            }
        }
        assert forall|kk: Seq<char>| #[trigger] entries_map(s).dom().contains(kk) implies exists|i: int|
            0 <= i < s.len() && s[i].0@ == kk by {
            if kk != k {
                assert(entries_map(t).dom().contains(kk));
                let i = choose|i: int| 0 <= i < t.len() && t[i].0@ == kk;
                assert(s[i] == t[i]);
            } else {
                assert(s[s.len() - 1].0@ == kk);
            }
        }
    }
}

/// `std::time::Instant`, which the store keeps as the start of its clock;
/// nothing inside it is read.
#[verifier::external_type_specification]
#[verifier::external_body]
pub struct ExInstant(std::time::Instant);

/// `Instant::now`: where the store's clock starts.
#[verifier::external_body]
fn clock_origin() -> (t: std::time::Instant) {
    std::time::Instant::now()
}

/// `Instant::elapsed`: the time since the store's clock started.
///
/// Nothing is stated of the value: it is the time.
#[verifier::external_body]
fn elapsed_since(origin: &std::time::Instant) -> (d: std::time::Duration) {
    origin.elapsed()
}

/// `Duration::as_nanos`: a duration in whole nanoseconds.
///
/// Nothing is stated of the value: the duration's contents are not
/// modelled.
#[verifier::external_body]
fn duration_nanos(d: &std::time::Duration) -> (n: u128) {
    d.as_nanos()
}

/// The store's clock for a time elapsed since it was created, in
/// nanoseconds: the elapsed time itself, held at the largest `u64` only once
/// it runs past it.
pub open spec fn clock_nanos(elapsed: int) -> int {
    if elapsed <= u64::MAX {
        elapsed
    } else {
        u64::MAX as int
    }
}

/// The store's clock reading for `elapsed` nanoseconds.
pub fn clock_reading(elapsed: u128) -> (n: u64)
    ensures
        n == clock_nanos(elapsed as int),
{
    if elapsed > 0xffff_ffff_ffff_ffffu128 {
        0xffff_ffff_ffff_ffffu64
    } else {
        elapsed as u64
    }
}

/// The sessions of the admin UI, one record per session identifier.
pub struct SessionStore {
    ttl: u64,
    origin: std::time::Instant,
    entries: Vec<(SessionId, SessionRecord)>,
}

impl View for SessionStore {
    type V = Map<Seq<char>, SessionRecord>;

    closed spec fn view(&self) -> Map<Seq<char>, SessionRecord> {
        entries_map(self.entries@)
    }
}

impl SessionStore {
    /// The store's invariant: no identifier occurs twice.
    pub closed spec fn wf(&self) -> bool {
        unique_ids(self.entries@)
    }

    pub closed spec fn spec_ttl(&self) -> u64 {
        self.ttl
    }

    /// An empty store whose sessions live `ttl` nanoseconds.
    pub fn new(ttl: u64) -> (store: SessionStore)
        ensures
            store.wf(),
            store@ == Map::<Seq<char>, SessionRecord>::empty(),
            store.spec_ttl() == ttl,
    {
        let store = SessionStore { ttl, origin: clock_origin(), entries: Vec::new() };
        assert(store.entries@ =~= Seq::<(SessionId, SessionRecord)>::empty());
        store
    }

    /// How long a session lives, in nanoseconds.
    pub fn ttl(&self) -> (t: u64)
        ensures
            t == self.spec_ttl(),
    {
        self.ttl
    }

    /// The store's clock: nanoseconds since the store was created, held at
    /// the largest `u64` once it runs past it.
    pub fn now(&self) -> (n: u64) {
        clock_reading(duration_nanos(&elapsed_since(&self.origin)))
    }

    /// The number of records the store holds, expired ones included.
    pub fn len(&self) -> (n: usize)
        requires
            self.wf(),
        ensures
            n == self@.dom().len(),
            self@.dom().finite(),
    {
        proof {
            lemma_entries_map(self.entries@);
        }
        self.entries.len()
    }

    pub fn is_empty(&self) -> (b: bool)
        requires
            self.wf(),
        ensures
            b == (self@.dom().len() == 0),
    {
        self.len() == 0
    }

    /// Where `id` stands in the entries, if it does.
    fn position(&self, id: &SessionId) -> (r: Option<usize>)
        requires
            self.wf(),
        ensures
            r matches Some(i) ==> i < self.entries@.len() && self.entries@[i as int].0@ == id@,
            r is None ==> !self@.dom().contains(id@),
    {
        proof {
            lemma_entries_map(self.entries@);
        }
        let mut i: usize = 0;
        while i < self.entries.len()
            invariant
                i <= self.entries@.len(),
                forall|j: int| 0 <= j < i ==> self.entries@[j].0@ != id@,
            decreases self.entries@.len() - i,
        {
            if self.entries[i].0.same_as(id) {
                return Some(i);
            }
            i = i + 1;
        }
        None
    }

    /// Adds a session created at `now` under `id`, after dropping every
    /// record that has expired at `now`.
    ///
    /// An operator who signs in again leaves the older record behind; the
    /// sweep makes sure that no abandoned session holds its password past
    /// the TTL.
    pub fn create_record_at(
        &mut self,
        id: SessionId,
        user: SessionUser,
        credentials: Option<SessionCredentials>,
        capabilities: Capabilities,
        csrf_token: CsrfToken,
        now: u64,
    ) -> (created: SessionId)
        requires
            old(self).wf(),
        ensures
            final(self).wf(),
            created@ == id@,
            final(self).spec_ttl() == old(self).spec_ttl(),
            final(self)@ == live_at(old(self)@, now).insert(
                id@,
                fresh_record(user, credentials, capabilities, csrf_token, expiry(now, old(self).spec_ttl())),
            ),
    {
        let expires_at = match now.checked_add(self.ttl) {
            Some(t) => t,
            None => now,
        };
        let record = SessionRecord { user, credentials, capabilities, csrf_token, expires_at };
        let ghost old_entries = self.entries@;
        let ghost target = live_at(entries_map(old_entries), now);
        let mut kept: Vec<(SessionId, SessionRecord)> = Vec::new();
        let n = self.entries.len();
        let mut i: usize = 0;
        assert(kept@ =~= Seq::<(SessionId, SessionRecord)>::empty());
        assert(entries_map(kept@) =~= live_at(entries_map(old_entries.subrange(0, 0)), now).remove(id@));
        while i < n
            invariant
                n == old_entries.len(),
                self.entries@ == old_entries,
                i <= n,
                unique_ids(old_entries),
                unique_ids(kept@),
                forall|j: int|
                    0 <= j < kept@.len() ==> #[trigger] entries_map(old_entries.subrange(0, i as int)).dom().contains(
                        kept@[j].0@,
                    ),
                entries_map(kept@) == live_at(entries_map(old_entries.subrange(0, i as int)), now).remove(id@),
            decreases n - i,
        {
            let ghost sub = old_entries.subrange(0, i as int);
            let ghost e = old_entries[i as int];
            assert(old_entries.subrange(0, i + 1) =~= sub.push(e));
            assert(sub.push(e).drop_last() =~= sub);
            proof {
                assert(unique_ids(sub));
                lemma_entries_map(sub);
                assert(!entries_map(sub).dom().contains(e.0@)) by {
                    if entries_map(sub).dom().contains(e.0@) {
                        let m = choose|m: int| 0 <= m < sub.len() && sub[m].0@ == e.0@;
                        assert(old_entries[m].0@ == old_entries[i as int].0@);
                    }
                }
            }
            let keep = !self.entries[i].1.is_expired(now) && !self.entries[i].0.same_as(&id);
            if keep {
                let ghost before = kept@;
                let entry = (self.entries[i].0.duplicate(), self.entries[i].1.duplicate());
                kept.push(entry);
                proof {
                    assert(kept@.drop_last() =~= before);
                    assert forall|a: int, b: int| 0 <= a < b < kept@.len() implies kept@[a].0@ != kept@[b].0@ by {
                        if b == kept@.len() - 1 {
                            assert(entries_map(sub).dom().contains(before[a].0@));
                        }
                    }
                }
            }
            proof {
                let m0 = entries_map(sub);
                assert(entries_map(old_entries.subrange(0, i + 1)) == m0.insert(e.0@, e.1));
                assert(entries_map(kept@) =~= live_at(m0.insert(e.0@, e.1), now).remove(id@));
            }
            i = i + 1;
        }
        assert(old_entries.subrange(0, n as int) =~= old_entries);
        let ghost before = kept@;
        let created = id.duplicate();
        kept.push((id, record));
        proof {
            lemma_entries_map(before);
            assert(kept@.drop_last() =~= before);
            assert forall|a: int, b: int| 0 <= a < b < kept@.len() implies kept@[a].0@ != kept@[b].0@ by {
                if b == kept@.len() - 1 {
                    assert(entries_map(before).dom().contains(before[a].0@));
                }
            }
            assert(entries_map(kept@) =~= target.insert(created@, record));
        }
        self.entries = kept;
        created
    }

    /// Creates a session that holds no broker credentials.
    ///
    /// Such a session cannot open a broker seam, so it reaches no broker
    /// data. It carries every capability: no ACL read stands behind it, and
    /// the broker refuses any operation it would reach anyway.
    pub fn create(&mut self, user: SessionUser) -> (id: SessionId)
        requires
            old(self).wf(),
        ensures
            final(self).wf(),
            final(self).spec_ttl() == old(self).spec_ttl(),
            is_canonical_uuid(id@),
            exists|now: u64, token: CsrfToken|
                is_canonical_uuid(token@) && #[trigger] live_at(old(self)@, now).insert(
                    id@,
                    fresh_record(user, None, Capabilities::spec_all(), token, expiry(now, old(self).spec_ttl())),
                ) == final(self)@,
    {
        let id = SessionId::new();
        let token = CsrfToken::new();
        let now = self.now();
        self.create_record_at(id, user, None, Capabilities::all(), token, now)
    }

    pub fn create_user(&mut self, username: &str, principal: &str) -> (id: SessionId)
        requires
            old(self).wf(),
        ensures
            final(self).wf(),
            final(self).spec_ttl() == old(self).spec_ttl(),
            is_canonical_uuid(id@),
            exists|now: u64, token: CsrfToken, user: SessionUser|
                user.username@ == username@ && user.principal@ == principal@ && is_canonical_uuid(token@)
                    && #[trigger] live_at(old(self)@, now).insert(
                    id@,
                    fresh_record(user, None, Capabilities::spec_all(), token, expiry(now, old(self).spec_ttl())),
                ) == final(self)@,
    {
        let user = SessionUser { username: username.to_owned(), principal: principal.to_owned() };
        self.create(user)
    }

    /// Creates the session of an operator whom the broker accepted.
    pub fn create_authenticated(
        &mut self,
        user: SessionUser,
        credentials: SessionCredentials,
        capabilities: Capabilities,
    ) -> (id: SessionId)
        requires
            old(self).wf(),
        ensures
            final(self).wf(),
            final(self).spec_ttl() == old(self).spec_ttl(),
            is_canonical_uuid(id@),
            exists|now: u64, token: CsrfToken|
                is_canonical_uuid(token@) && #[trigger] live_at(old(self)@, now).insert(
                    id@,
                    fresh_record(user, Some(credentials), capabilities, token, expiry(now, old(self).spec_ttl())),
                ) == final(self)@,
    {
        let id = SessionId::new();
        let token = CsrfToken::new();
        let now = self.now();
        self.create_record_at(id, user, Some(credentials), capabilities, token, now)
    }

    /// Looks `id` up at `now`; an expired record is dropped on the way.
    pub fn get_at(&mut self, id: &SessionId, now: u64) -> (r: Option<SessionRecord>)
        requires
            old(self).wf(),
        ensures
            final(self).wf(),
            final(self).spec_ttl() == old(self).spec_ttl(),
            r == lookup_at(old(self)@, id@, now),
            final(self)@ == after_lookup(old(self)@, id@, now),
    {
        proof {
            lemma_entries_map(self.entries@);
        }
        match self.position(id) {
            None => None,
            Some(i) => {
                if !self.entries[i].1.is_expired(now) {
                    Some(self.entries[i].1.duplicate())
                } else {
                    self.remove_at(i);
                    None
                }
            },
        }
    }

    /// Looks `id` up on the store's clock.
    pub fn get(&mut self, id: &SessionId) -> (r: Option<SessionRecord>)
        requires
            old(self).wf(),
        ensures
            final(self).wf(),
            final(self).spec_ttl() == old(self).spec_ttl(),
            exists|now: u64|
                r == lookup_at(old(self)@, id@, now) && #[trigger] after_lookup(old(self)@, id@, now)
                    == final(self)@,
    {
        let now = self.now();
        self.get_at(id, now)
    }

    /// Removes the session; says whether there was one.
    pub fn remove(&mut self, id: &SessionId) -> (removed: bool)
        requires
            old(self).wf(),
        ensures
            final(self).wf(),
            final(self).spec_ttl() == old(self).spec_ttl(),
            removed == old(self)@.dom().contains(id@),
            final(self)@ == old(self)@.remove(id@),
    {
        proof {
            lemma_entries_map(self.entries@);
        }
        match self.position(id) {
            None => {
                assert(self@ =~= self@.remove(id@));
                false
            },
            Some(i) => {
                self.remove_at(i);
                true
            },
        }
    }

    fn remove_at(&mut self, i: usize)
        requires
            old(self).wf(),
            i < old(self).entries@.len(),
        ensures
            final(self).wf(),
            final(self).spec_ttl() == old(self).spec_ttl(),
            final(self)@ == old(self)@.remove(old(self).entries@[i as int].0@),
    {
        let ghost s = self.entries@;
        let ghost k = s[i as int].0@;
        let _ = self.entries.remove(i);
        let ghost t = self.entries@;
        assert(t =~= s.remove(i as int));
        assert forall|a: int, b: int| 0 <= a < b < t.len() implies t[a].0@ != t[b].0@ by {
            if a < i {
                if b < i {
                } else {
                    assert(t[b] == s[b + 1]);
                }
            } else {
                assert(t[a] == s[a + 1]);
                assert(t[b] == s[b + 1]);
            }
        }
        proof {
            lemma_entries_map(s);
            lemma_entries_map(t);
            assert forall|kk: Seq<char>| #[trigger] entries_map(t).dom().contains(kk) == entries_map(s).remove(
                k,
            ).dom().contains(kk) by {
                if entries_map(t).dom().contains(kk) {
                    let j = choose|j: int| 0 <= j < t.len() && t[j].0@ == kk;
                    if j < i {
                        assert(t[j] == s[j]);
                        assert(s[j].0@ != s[i as int].0@);
                    } else {
                        assert(t[j] == s[j + 1]);
                        assert(s[j + 1].0@ != s[i as int].0@);
                    }
                }
                if entries_map(s).remove(k).dom().contains(kk) {
                    let j = choose|j: int| 0 <= j < s.len() && s[j].0@ == kk;
                    if j < i {
                        assert(t[j] == s[j]);
                        assert(entries_map(t).dom().contains(t[j].0@));
                    } else {
                        assert(j != i);
                        assert(t[j - 1] == s[j]);
                        assert(entries_map(t).dom().contains(t[j - 1].0@));
                    }
                }
            }
            assert forall|kk: Seq<char>| #[trigger] entries_map(t).dom().contains(kk) implies entries_map(t)[kk]
                == entries_map(s)[kk] by {
                let j = choose|j: int| 0 <= j < t.len() && t[j].0@ == kk;
                if j < i {
                    assert(t[j] == s[j]);
                } else {
                    assert(t[j] == s[j + 1]);
                }
            }
            assert(entries_map(t) =~= entries_map(s).remove(k));
        }
    }
}

/// A session is found, with the record it was created with, at any time
/// before it expires.
pub proof fn law_created_session_is_found(
    m: Map<Seq<char>, SessionRecord>,
    id: Seq<char>,
    record: SessionRecord,
    created_at: u64,
    later: u64,
)
    requires
        !record.spec_is_expired(later),
    ensures
        lookup_at(live_at(m, created_at).insert(id, record), id, later) == Some(record),
        after_lookup(live_at(m, created_at).insert(id, record), id, later) == live_at(m, created_at).insert(
            id,
            record,
        ),
{
}

/// A removed session is never found again.
pub proof fn law_removed_session_is_gone(m: Map<Seq<char>, SessionRecord>, id: Seq<char>, now: u64)
    ensures
        lookup_at(m.remove(id), id, now) is None,
{
}

/// A lookup never answers with an expired record.
pub proof fn law_lookup_is_live(m: Map<Seq<char>, SessionRecord>, id: Seq<char>, now: u64)
    ensures
        lookup_at(m, id, now) matches Some(r) ==> !r.spec_is_expired(now) && m.dom().contains(id) && m[id] == r,
{
}

/// Creating a session at `now` leaves no record that has expired at `now`,
/// and keeps every other session that is still live with its record.
pub proof fn law_creation_sweeps_expired(
    m: Map<Seq<char>, SessionRecord>,
    id: Seq<char>,
    record: SessionRecord,
    now: u64,
)
    ensures
        forall|k: Seq<char>|
            #[trigger] live_at(m, now).insert(id, record).dom().contains(k) && k != id ==> !m[k].spec_is_expired(now),
        forall|k: Seq<char>|
            m.dom().contains(k) && !m[k].spec_is_expired(now) && k != id ==> #[trigger] live_at(m, now).insert(
                id,
                record,
            )[k] == m[k] && live_at(m, now).insert(id, record).dom().contains(k),
{
}

/// The store's clock runs with real time: every elapsed time that fits a
/// `u64` reads as itself, a later time never reads earlier, and a reading
/// never runs ahead of the time. So a session lives its TTL of elapsed time
/// and no longer: created after `created` nanoseconds, it is no longer found
/// once `ttl` more nanoseconds have passed.
pub proof fn law_store_clock_runs_with_time(
    created: int,
    later: int,
    m: Map<Seq<char>, SessionRecord>,
    id: Seq<char>,
    user: SessionUser,
    credentials: Option<SessionCredentials>,
    capabilities: Capabilities,
    token: CsrfToken,
    ttl: u64,
)
    requires
        0 <= created <= later,
    ensures
        later <= u64::MAX ==> clock_nanos(later) == later,
        clock_nanos(created) <= clock_nanos(later),
        clock_nanos(later) <= later,
        created + ttl <= later <= u64::MAX ==> lookup_at(
            live_at(m, clock_nanos(created) as u64).insert(
                id,
                fresh_record(user, credentials, capabilities, token, expiry(clock_nanos(created) as u64, ttl)),
            ),
            id,
            clock_nanos(later) as u64,
        ) is None,
{
}

/// A new store whose sessions live no time holds only the newest login: a
/// second session created at or after the first leaves the first behind,
/// so the store holds one session.
pub proof fn law_zero_ttl_store_keeps_only_the_newest_login(
    first: Seq<char>,
    first_record: SessionRecord,
    second: Seq<char>,
    second_record: SessionRecord,
    first_at: u64,
    second_at: u64,
)
    requires
        first_record.expires_at == expiry(first_at, 0),
        first_at <= second_at,
    ensures
        live_at(
            live_at(Map::<Seq<char>, SessionRecord>::empty(), first_at).insert(first, first_record),
            second_at,
        ).insert(second, second_record).dom() =~= set![second],
        live_at(
            live_at(Map::<Seq<char>, SessionRecord>::empty(), first_at).insert(first, first_record),
            second_at,
        ).insert(second, second_record).len() == 1,
{
    let after_first = live_at(Map::<Seq<char>, SessionRecord>::empty(), first_at).insert(first, first_record);
    let after_second = live_at(after_first, second_at).insert(second, second_record);
    assert(first_record.spec_is_expired(second_at));
    assert(after_second.dom() =~= set![second]);
    assert(set![second].len() == 1) by {
        assert(set![second] =~= Set::<Seq<char>>::empty().insert(second));
    }
}

/// A store whose sessions live no time hands out sessions that are already
/// expired: no lookup at or after their creation finds them.
pub proof fn law_zero_ttl_expires_at_once(
    m: Map<Seq<char>, SessionRecord>,
    id: Seq<char>,
    user: SessionUser,
    credentials: Option<SessionCredentials>,
    capabilities: Capabilities,
    token: CsrfToken,
    created_at: u64,
    later: u64,
)
    requires
        created_at <= later,
    ensures
        lookup_at(
            live_at(m, created_at).insert(id, fresh_record(user, credentials, capabilities, token, expiry(created_at, 0))),
            id,
            later,
        ) is None,
{
}

} // verus!
