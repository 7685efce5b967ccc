//! The database connection form: its defaults, the URL it is read from and
//! the connection URL it gives.
use vstd::prelude::*;
use crate::number::{digits, digits_of};
use crate::text::{
    chars_of, has_prefix, is_digit, push_all, push_str, replace, replace_char, slice_of, split_first,
    split_once, starts_with, string_of, trim, trimmed,
};

verus! {

/// The connection form as the user fills it in.
#[derive(Clone, Debug, PartialEq, Eq)]
pub struct DbForm {
    pub host: String,
    pub port: String,
    pub database: String,
    pub username: String,
    pub password: String,
}

impl Default for DbForm {
    fn default() -> (r: DbForm)
        ensures
            r.host@ == "192.168.110.112"@,
            r.port@ == "5432"@,
            r.database@ == "zay_pos"@,
            r.username@ == "zay_pos_user"@,
            r.password@ == Seq::<char>::empty(),
    {
        DbForm {
            host: "192.168.110.112".to_owned(),
            port: "5432".to_owned(),
            database: "zay_pos".to_owned(),
            username: "zay_pos_user".to_owned(),
            password: String::new(),
        }
    }
}

/// A credential with the characters that would break the URL escaped.
pub open spec fn url_escaped(s: Seq<char>) -> Seq<char> {
    replace_char(
        replace_char(replace_char(replace_char(s, '%', "%25"@), '@', "%40"@), ':', "%3A"@),
        '/',
        "%2F"@,
    )
}

/// A credential escaped for the connection URL.
pub fn url_encode(value: &str) -> (r: String)
    ensures
        r@ == url_escaped(value@),
{
    let v = chars_of(value);
    let a = replace(v.as_slice(), '%', chars_of("%25").as_slice());
    let b = replace(a.as_slice(), '@', chars_of("%40").as_slice());
    let c = replace(b.as_slice(), ':', chars_of("%3A").as_slice());
    let d = replace(c.as_slice(), '/', chars_of("%2F").as_slice());
    string_of(d.as_slice())
}

/// The value of decimal digits.
pub open spec fn digits_value(s: Seq<char>) -> nat
    decreases s.len(),
{
    if s.len() == 0 {
        0
    } else {
        digits_value(s.drop_last()) * 10 + ((s.last() as u32) - ('0' as u32)) as nat
    }
}

/// The port `u16::from_str` reads: an optional `+`, then at least one ASCII
/// digit, and a value that fits.
pub open spec fn port_body(s: Seq<char>) -> Seq<char> {
    if s.len() > 0 && s[0] == '+' {
        s.drop_first()
    } else {
        s
    }
}

pub open spec fn port_of(s: Seq<char>) -> Option<u16> {
    let body = port_body(s);
    if body.len() > 0 && (forall|i: int| 0 <= i < body.len() ==> is_digit(#[trigger] body[i]))
        && digits_value(body) <= u16::MAX {
        Some(digits_value(body) as u16)
    } else {
        None
    }
}

proof fn lemma_value_grows(s: Seq<char>, k: int)
    requires
        0 <= k <= s.len(),
        forall|i: int| 0 <= i < s.len() ==> is_digit(#[trigger] s[i]),
    ensures
        digits_value(s.subrange(0, k)) <= digits_value(s),
    decreases s.len() - k,
{
    if k < s.len() {
        lemma_value_grows(s, k + 1);
        let t = s.subrange(0, k + 1);
        assert(t.drop_last() =~= s.subrange(0, k));
    } else {
        assert(s.subrange(0, k) =~= s);
    }
}

/// A port number as `u16::from_str` reads it.
pub fn parse_port(text: &str) -> (r: Option<u16>)
    ensures
        r == port_of(text@),
{
    let s = chars_of(text);
    let start: usize = if s.len() > 0 && s[0] == '+' {
        1
    } else {
        0
    };
    let body = slice_of(s.as_slice(), start, s.len());
    proof {
        if text@.len() > 0 && text@[0] == '+' {
            assert(body@ =~= text@.drop_first());
        } else {
            assert(body@ =~= text@);
        }
    }
    if body.len() == 0 {
        return None;
    }
    let mut value: u32 = 0;
    let mut i: usize = 0;
    while i < body.len()
        invariant
            i <= body@.len(),
            body@ == port_body(text@),
            forall|j: int| 0 <= j < i ==> is_digit(#[trigger] body@[j]),
            value == digits_value(body@.subrange(0, i as int)),
            value <= u16::MAX,
        decreases body@.len() - i,
    {
        let c = body[i];
        if !('0' <= c && c <= '9') {
            proof {
                assert(!is_digit(body@[i as int]));
            }
            return None;
        }
        let d: u32 = (c as u32) - ('0' as u32);
        let next: u32 = value * 10 + d;
        proof {
            let t = body@.subrange(0, i + 1);
            assert(t.drop_last() =~= body@.subrange(0, i as int));
        }
        if next > 65535 {
            proof {
                if forall|j: int| 0 <= j < body@.len() ==> is_digit(#[trigger] body@[j]) {
                    lemma_value_grows(body@, i + 1);
                }
            }
            return None;
        }
        value = next;
        i = i + 1;
    }
    proof {
        assert(body@.subrange(0, i as int) =~= body@);
    }
    Some(value as u16)
}

/// How the client reaches the database.
pub struct DatabaseConfig {
    pub database_url: String,
    pub max_connections: u32,
}

/// Why the form gives no connection.
#[derive(Debug, PartialEq, Eq)]
pub enum DbFormError {
    /// The port is not a number from 0 to 65535.
    InvalidPort,
}

/// The connection URL of the form with this port.
pub open spec fn connection_url(f: DbForm, port: u16) -> Seq<char> {
    "postgresql://"@ + url_escaped(trimmed(f.username@)) + ":"@ + url_escaped(f.password@) + "@"@
        + trimmed(f.host@) + ":"@ + digits(port as nat) + "/"@ + trimmed(f.database@)
}

impl DbForm {
    /// The connection the form describes: refused when the trimmed port is not
    /// a port number; at most five connections.
    pub fn database_config(&self) -> (r: Result<DatabaseConfig, DbFormError>)
        ensures
            match port_of(trimmed(self.port@)) {
                Some(p) => r matches Ok(c) && c.database_url@ == connection_url(*self, p)
                    && c.max_connections == 5,
                None => r == Err::<DatabaseConfig, DbFormError>(DbFormError::InvalidPort),
            },
    {
        let port_text = string_of(trim(chars_of(self.port.as_str()).as_slice()).as_slice());
        let port = match parse_port(port_text.as_str()) {
            Some(p) => p,
            None => return Err(DbFormError::InvalidPort),
        };
        let mut url: Vec<char> = Vec::new();
        push_str(&mut url, "postgresql://");
        let user = url_encode(string_of(trim(chars_of(self.username.as_str()).as_slice()).as_slice()).as_str());
        push_str(&mut url, user.as_str());
        push_str(&mut url, ":");
        let password = url_encode(self.password.as_str());
        push_str(&mut url, password.as_str());
        push_str(&mut url, "@");
        let host = trim(chars_of(self.host.as_str()).as_slice());
        push_all(&mut url, host.as_slice());
        push_str(&mut url, ":");
        let port_digits = digits_of(port as u64);
        push_all(&mut url, port_digits.as_slice());
        push_str(&mut url, "/");
        let database = trim(chars_of(self.database.as_str()).as_slice());
        push_all(&mut url, database.as_slice());
        proof {
            assert(url@ =~= connection_url(*self, port));
        }
        Ok(DatabaseConfig { database_url: string_of(url.as_slice()), max_connections: 5 })
    }
}

/// The text after the URL scheme, for the two schemes PostgreSQL accepts.
pub open spec fn after_scheme(url: Seq<char>) -> Option<Seq<char>> {
    if has_prefix(url, "postgresql://"@) {
        Some(url.subrange("postgresql://"@.len() as int, url.len() as int))
    } else if has_prefix(url, "postgres://"@) {
        Some(url.subrange("postgres://"@.len() as int, url.len() as int))
    } else {
        None
    }
}

/// The fields a connection URL gives: host, port (5432 when none), database
/// (before any `?`), user name and password, each as written in the URL.
pub open spec fn url_fields(url: Seq<char>) -> Option<(Seq<char>, Seq<char>, Seq<char>, Seq<char>, Seq<char>)> {
    match after_scheme(url) {
        None => None,
        Some(rest) => match split_first(rest, '@') {
            None => None,
            Some((credentials, host_part)) => match split_first(credentials, ':') {
                None => None,
                Some((username, password)) => match split_first(host_part, '/') {
                    None => None,
                    Some((host_port, database_part)) => {
                        let (host, port) = match split_first(host_port, ':') {
                            Some(p) => p,
                            None => (host_port, "5432"@),
                        };
                        let database = match split_first(database_part, '?') {
                            Some(p) => p.0,
                            None => database_part,
                        };
                        Some((host, port, database, username, password))
                    },
                },
            },
        },
    }
}

/// The form a connection URL describes (as the environment may give it).
pub fn parse_database_url(url: &str) -> (r: Option<DbForm>)
    ensures
        match (r, url_fields(url@)) {
            (Some(f), Some(v)) => f.host@ == v.0 && f.port@ == v.1 && f.database@ == v.2 && f.username@
                == v.3 && f.password@ == v.4,
            (None, None) => true,
            _ => false,
        },
{
    let u = chars_of(url);
    let long = chars_of("postgresql://");
    let short = chars_of("postgres://");
    let rest = if starts_with(u.as_slice(), long.as_slice()) {
        slice_of(u.as_slice(), long.len(), u.len())
    } else if starts_with(u.as_slice(), short.as_slice()) {
        slice_of(u.as_slice(), short.len(), u.len())
    } else {
        return None;
    };
    proof {
        assert(after_scheme(url@) == Some(rest@));
    }
    let (credentials, host_part) = match split_once(rest.as_slice(), '@') {
        Some(p) => p,
        None => return None,
    };
    let (username, password) = match split_once(credentials.as_slice(), ':') {
        Some(p) => p,
        None => return None,
    };
    let (host_port, database_part) = match split_once(host_part.as_slice(), '/') {
        Some(p) => p,
        None => return None,
    };
    let (host, port) = match split_once(host_port.as_slice(), ':') {
        Some((h, p)) => (h, p),
        None => (slice_of(host_port.as_slice(), 0, host_port.len()), chars_of("5432")),
    };
    proof {
        assert(host_port@.subrange(0, host_port@.len() as int) =~= host_port@);
    }
    let database = match split_once(database_part.as_slice(), '?') {
        Some((d, _)) => d,
        None => slice_of(database_part.as_slice(), 0, database_part.len()),
    };
    proof {
        assert(database_part@.subrange(0, database_part@.len() as int) =~= database_part@);
    }
    Some(
        DbForm {
            host: string_of(host.as_slice()),
            port: string_of(port.as_slice()),
            database: string_of(database.as_slice()),
            username: string_of(username.as_slice()),
            password: string_of(password.as_slice()),
        },
    )
}

} // verus!
