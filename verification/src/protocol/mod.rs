//! The Postgres wire protocol, as spoken to a backend server.

pub mod auth;
pub mod buffer;
pub mod connect;
pub mod error;
pub mod handshake;
pub mod messages;
pub mod reads;
pub mod requests;
pub mod session;
pub mod text;

use vstd::prelude::*;
use vstd::std_specs::cmp::PartialEqSpec;
use vstd::string::*;

use text::i32_to_string;

verus! {

/// Pool key: uniquely identifies a backend connection pool.
#[derive(Debug, Clone, Hash, Eq)]
pub struct PoolKey {
    pub host: String,
    pub port: u16,
    pub database: String,
    pub user: String,
}

impl PartialEq for PoolKey {
    /// Two keys are the same where all four parts are.
    fn eq(&self, other: &Self) -> (same: bool) {
        self.host == other.host && self.port == other.port && self.database == other.database
            && self.user == other.user
    }
}

impl vstd::std_specs::cmp::PartialEqSpecImpl for PoolKey {
    open spec fn obeys_eq_spec() -> bool {
        true
    }

    open spec fn eq_spec(&self, other: &Self) -> bool {
        self.host@ == other.host@ && self.port == other.port && self.database@ == other.database@
            && self.user@ == other.user@
    }
}

impl PoolKey {
    /// `host:port`, the address of the server.
    pub open spec fn address_text(self) -> Seq<char> {
        self.host@ + seq![':'] + text::decimal(self.port as int)
    }

    /// `host:port`, the address to connect to.
    pub fn address(&self) -> (text: String)
        ensures
            text@ == self.address_text(),
    {
        proof {
            reveal_strlit(":");
        }
        let mut text = self.host.clone();
        text.append(":");
        let port = i32_to_string(self.port as i32);
        text.append(port.as_str());
        assert(text@ =~= self.address_text());
        text
    }

    /// `host:port/database@user`, the key in words.
    pub open spec fn text(self) -> Seq<char> {
        self.address_text() + seq!['/'] + self.database@ + seq!['@'] + self.user@
    }

    /// The key as `host:port/database@user`.
    pub fn to_string(&self) -> (text: String)
        ensures
            text@ == self.text(),
    {
        proof {
            reveal_strlit("/");
            reveal_strlit("@");
        }
        let mut text = self.address();
        text.append("/");
        text.append(self.database.as_str());
        text.append("@");
        text.append(self.user.as_str());
        assert(text@ =~= self.text());
        text
    }
}

/// A text is cut at the first place where a character stands.
proof fn lemma_first_cut(a: Seq<char>, b: Seq<char>, mark: char, c: Seq<char>, d: Seq<char>)
    requires
        a + seq![mark] + b == c + seq![mark] + d,
        !a.contains(mark),
        !c.contains(mark),
    ensures
        a == c,
        b == d,
{
    let whole = a + seq![mark] + b;
    let same = c + seq![mark] + d;
    assert(whole[a.len() as int] == mark);
    assert(same[c.len() as int] == mark);
    if a.len() < c.len() {
        assert(c.contains(c[a.len() as int]));
    } else if c.len() < a.len() {
        assert(a.contains(a[c.len() as int]));
    }
    assert(a =~= whole.take(a.len() as int));
    assert(c =~= whole.take(a.len() as int));
    assert(b =~= whole.skip(a.len() as int + 1));
    assert(d =~= whole.skip(a.len() as int + 1));
}

/// A text is cut at the last place where a character stands.
proof fn lemma_last_cut(a: Seq<char>, b: Seq<char>, mark: char, c: Seq<char>, d: Seq<char>)
    requires
        a + seq![mark] + b == c + seq![mark] + d,
        !b.contains(mark),
        !d.contains(mark),
    ensures
        a == c,
        b == d,
{
    let whole = a + seq![mark] + b;
    let same = c + seq![mark] + d;
    assert(whole.len() == a.len() + 1 + b.len());
    assert(same.len() == c.len() + 1 + d.len());
    assert(whole[a.len() as int] == mark);
    assert(same[c.len() as int] == mark);
    if a.len() < c.len() {
        assert(b[c.len() - a.len() - 1] == mark);
        assert(b.contains(mark));
    } else if c.len() < a.len() {
        assert(d[a.len() - c.len() - 1] == mark);
        assert(d.contains(mark));
    }
    assert(a =~= whole.take(a.len() as int));
    assert(c =~= whole.take(a.len() as int));
    assert(b =~= whole.skip(a.len() as int + 1));
    assert(d =~= whole.skip(a.len() as int + 1));
}

/// Two keys are equal exactly where their hosts, their ports, their databases and their users are. So a
/// pool serves one user of one database alone.
pub proof fn law_equal_in_every_part(a: PoolKey, b: PoolKey)
    ensures
        a.eq_spec(&b) <==> (a.host@ == b.host@ && a.port == b.port && a.database@ == b.database@
            && a.user@ == b.user@),
        a.eq_spec(&b) ==> a.text() == b.text() && a.address_text() == b.address_text(),
        a.eq_spec(&a),
        a.eq_spec(&b) == b.eq_spec(&a),
{
}

/// The text of a key holds all of its parts, each as it is: the host and the port with a colon between
/// them, which is the address; then behind a slash the database; then behind an at sign the user.
pub proof fn law_text_holds_every_part(key: PoolKey)
    ensures
        key.text().take(key.host@.len() as int) == key.host@,
        key.text().take(key.address_text().len() as int) == key.address_text(),
        key.address_text() == key.host@ + seq![':'] + text::decimal(key.port as int),
        key.text().skip(key.address_text().len() as int) == seq!['/'] + key.database@ + seq!['@']
            + key.user@,
{
    let address = key.address_text();
    assert(key.text().take(key.host@.len() as int) =~= key.host@);
    assert(key.text().take(address.len() as int) =~= address);
    assert(key.text().skip(address.len() as int) =~= seq!['/'] + key.database@ + seq!['@'] + key.user@);
}

/// Keys with the same text are equal, where no host holds a `/` and no user an `@`.
pub proof fn law_text_tells_apart(a: PoolKey, b: PoolKey)
    requires
        !a.host@.contains('/'),
        !b.host@.contains('/'),
        !a.user@.contains('@'),
        !b.user@.contains('@'),
        a.text() == b.text(),
    ensures
        a.eq_spec(&b),
{
    let port_a = text::decimal(a.port as int);
    let port_b = text::decimal(b.port as int);
    text::lemma_decimal_digits(a.port as nat);
    text::lemma_decimal_digits(b.port as nat);
    let rest_a = a.database@ + seq!['@'] + a.user@;
    let rest_b = b.database@ + seq!['@'] + b.user@;
    assert(a.text() =~= a.address_text() + seq!['/'] + rest_a);
    assert(b.text() =~= b.address_text() + seq!['/'] + rest_b);
    assert(!a.address_text().contains('/')) by {
        lemma_address_plain(a);
    }
    assert(!b.address_text().contains('/')) by {
        lemma_address_plain(b);
    }
    lemma_first_cut(a.address_text(), rest_a, '/', b.address_text(), rest_b);
    lemma_last_cut(a.database@, a.user@, '@', b.database@, b.user@);
    assert(!port_a.contains(':') && !port_b.contains(':'));
    lemma_last_cut(a.host@, port_a, ':', b.host@, port_b);
    text::law_decimal_tells_apart(a.port as nat, b.port as nat);
}

/// An address holds no `/` where the host holds none.
proof fn lemma_address_plain(key: PoolKey)
    requires
        !key.host@.contains('/'),
    ensures
        !key.address_text().contains('/'),
{
    let address = key.address_text();
    text::lemma_decimal_digits(key.port as nat);
    if address.contains('/') {
        let i = choose|i: int| 0 <= i < address.len() && address[i] == '/';
        if i < key.host@.len() {
            assert(key.host@[i] == '/');
        } else if i > key.host@.len() {
            assert(text::decimal(key.port as int)[i - key.host@.len() - 1] == '/');
        }
    }
}

/// Information extracted from the client's startup message.
#[derive(Debug, Clone)]
pub struct ClientStartupInfo {
    pub user: String,
    pub database: String,
    pub password: String,
    pub max_db_size: Option<u64>,
    pub application_name: String,
    pub extra_params: Vec<(String, String)>,
}

} // verus!
