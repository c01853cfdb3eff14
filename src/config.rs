//! The settings the program runs with, and how their text is read.
use vstd::prelude::*;

use crate::text::{chars_of, starts_with};

verus! {

/// When bookmarks are written to the reading journal.
#[derive(Clone, Copy, Debug, PartialEq, Eq, Structural)]
pub enum SyncBookmarks {
    Always,
    Never,
    /// Only once the book has been read to the end.
    Finished,
}

/// When progress is synchronised as a book is closed.
#[derive(Clone, Copy, Debug, PartialEq, Eq, Structural)]
pub enum SyncOnClose {
    Always,
    Never,
    Number(u8),
}

/// The settings of the program.
#[derive(Debug)]
pub struct Config {
    pub authorization: String,
    pub auto_sync_default: bool,
    pub debug: bool,
    pub sqlite_path: String,
    pub sync_bookmarks: SyncBookmarks,
    pub sync_on_close: SyncOnClose,
    pub threshold: u8,
}

impl Default for Config {
    fn default() -> (r: Config)
        ensures
            r.authorization@.len() == 0,
            !r.auto_sync_default,
            !r.debug,
            r.sqlite_path@ == "/mnt/onboard/.kobo/KoboReader.sqlite"@,
            r.sync_bookmarks == SyncBookmarks::Always,
            r.sync_on_close == SyncOnClose::Always,
            r.threshold == 20,
    {
        Config {
            authorization: String::new(),
            auto_sync_default: false,
            debug: false,
            sqlite_path: String::from_str("/mnt/onboard/.kobo/KoboReader.sqlite"),
            sync_bookmarks: SyncBookmarks::Always,
            sync_on_close: SyncOnClose::Always,
            threshold: 20,
        }
    }
}

/// `c` with ASCII upper-case letters made lower-case.
pub open spec fn ascii_lower(c: char) -> char {
    if 'A' <= c && c <= 'Z' {
        ((c as u8) + 32) as u8 as char
    } else {
        c
    }
}

/// Whether `a` and `b` are equal but for the case of ASCII letters.
pub open spec fn same_ignoring_ascii_case(a: Seq<char>, b: Seq<char>) -> bool {
    a.len() == b.len() && forall|i: int| 0 <= i < a.len() ==> ascii_lower(#[trigger] a[i]) == ascii_lower(b[i])
}

fn lower(c: char) -> (r: char)
    ensures
        r == ascii_lower(c),
{
    if 'A' <= c && c <= 'Z' {
        ((c as u8) + 32) as u8 as char
    } else {
        c
    }
}

/// Whether `a` and `b` are equal but for the case of ASCII letters.
pub fn eq_ignore_ascii_case(a: &str, b: &str) -> (r: bool)
    ensures
        r == same_ignoring_ascii_case(a@, b@),
{
    let x = chars_of(a);
    let y = chars_of(b);
    if x.len() != y.len() {
        return false;
    }
    let mut i: usize = 0;
    while i < x.len()
        invariant
            x@ == a@,
            y@ == b@,
            x@.len() == y@.len(),
            i <= x@.len(),
            forall|j: int| 0 <= j < i ==> ascii_lower(#[trigger] a@[j]) == ascii_lower(b@[j]),
        decreases x.len() - i,
    {
        if lower(x[i]) != lower(y[i]) {
            return false;
        }
        i = i + 1;
    }
    true
}

/// The value of a string of decimal digits.
pub open spec fn digits_value(d: Seq<char>) -> nat
    decreases d.len(),
{
    if d.len() == 0 {
        0
    } else {
        digits_value(d.drop_last()) * 10 + (d.last() as nat - '0' as nat) as nat
    }
}

pub open spec fn all_digits(d: Seq<char>) -> bool {
    forall|i: int| 0 <= i < d.len() ==> '0' <= #[trigger] d[i] && d[i] <= '9'
}

/// What `str::parse::<u8>` reads from `s`: an optional `+` and then one or
/// more decimal digits whose value is at most 255.
pub open spec fn parsed_u8(s: Seq<char>) -> Option<u8> {
    let d = if s.len() > 0 && s[0] == '+' {
        s.drop_first()
    } else {
        s
    };
    if d.len() > 0 && all_digits(d) && digits_value(d) <= 255 {
        Some(digits_value(d) as u8)
    } else {
        None
    }
}

/// Reads an unsigned byte from its decimal text.
pub fn parse_u8(s: &str) -> (r: Option<u8>)
    ensures
        r == parsed_u8(s@),
{
    let c = chars_of(s);
    let start: usize = if c.len() > 0 && c[0] == '+' {
        1
    } else {
        0
    };
    let ghost d = if s@.len() > 0 && s@[0] == '+' {
        s@.drop_first()
    } else {
        s@
    };
    assert(d =~= s@.skip(start as int));
    if start >= c.len() {
        return None;
    }
    let mut value: u32 = 0;
    let mut i: usize = start;
    assert(d.take(0) =~= Seq::<char>::empty());
    while i < c.len()
        invariant
            c@ == s@,
            start <= i <= c@.len(),
            d =~= s@.skip(start as int),
            d == (if s@.len() > 0 && s@[0] == '+' {
                s@.drop_first()
            } else {
                s@
            }),
            d.len() > 0,
            all_digits(d.take(i - start)),
            value <= 255,
            value == digits_value(d.take(i - start)),
        decreases c.len() - i,
    {
        let ch = c[i];
        let ghost k = i - start;
        assert(d.take(k + 1).drop_last() =~= d.take(k));
        assert(d[k] == ch);
        if !('0' <= ch && ch <= '9') {
            assert(!all_digits(d)) by {
                if all_digits(d) {
                    assert('0' <= d[k] && d[k] <= '9');
                }
            }
            return None;
        }
        let next = value * 10 + (ch as u32 - '0' as u32);
        assert(all_digits(d.take(k + 1))) by {
            assert forall|m: int| 0 <= m < k + 1 implies '0' <= #[trigger] d.take(k + 1)[m] && d.take(k + 1)[m] <= '9' by {
                if m < k {
                    assert(d.take(k + 1)[m] == d.take(k)[m]);
                }
            }
        }
        if next > 255 {
            proof {
                assert(d.take(k + 1).last() == ch);
                assert(digits_value(d.take(k + 1)) == next);
                lemma_prefix_value_bound(d, k + 1, d.len() as int);
                assert(d.take(d.len() as int) =~= d);
            }
            return None;
        }
        value = next;
        i = i + 1;
    }
    assert(d.take(c@.len() - start) =~= d);
    Some(value as u8)
}

/// Once a prefix of digits is worth more than 255, so is every longer one.
proof fn lemma_prefix_value_bound(t: Seq<char>, j: int, k: int)
    requires
        0 < j <= k <= t.len(),
        digits_value(t.take(j)) > 255,
    ensures
        digits_value(t.take(k)) > 255 || !all_digits(t.take(k)),
    decreases k - j,
{
    if k > j {
        lemma_prefix_value_bound(t, j, k - 1);
        assert(t.take(k).drop_last() =~= t.take(k - 1));
        if all_digits(t.take(k)) {
            assert(all_digits(t.take(k - 1))) by {
                assert forall|i: int| 0 <= i < k - 1 implies '0' <= #[trigger] t.take(k - 1)[i] && t.take(k - 1)[i] <= '9' by {
                    assert(t.take(k - 1)[i] == t.take(k)[i]);
                }
            }
        }
    }
}

/// The message for a setting that holds no valid value.
pub open spec fn invalid_setting(value: Seq<char>, name: Seq<char>) -> Seq<char> {
    value + " is not a valid "@ + name + " value"@
}

fn invalid_setting_message(value: &str, name: &str) -> (r: String)
    ensures
        r@ == invalid_setting(value@, name@),
{
    let mut r = String::from_str(value);
    r.append(" is not a valid ");
    r.append(name);
    r.append(" value");
    r
}

impl SyncBookmarks {
    /// Reads the setting from its name, in any case of ASCII letters.
    pub fn from_name(s: &str) -> (r: Result<SyncBookmarks, String>)
        ensures
            same_ignoring_ascii_case(s@, "Always"@) ==> r == Ok::<SyncBookmarks, String>(SyncBookmarks::Always),
            !same_ignoring_ascii_case(s@, "Always"@) && same_ignoring_ascii_case(s@, "Never"@) ==> r
                == Ok::<SyncBookmarks, String>(SyncBookmarks::Never),
            !same_ignoring_ascii_case(s@, "Always"@) && !same_ignoring_ascii_case(s@, "Never"@)
                && same_ignoring_ascii_case(s@, "Finished"@) ==> r == Ok::<SyncBookmarks, String>(
                SyncBookmarks::Finished,
            ),
            !same_ignoring_ascii_case(s@, "Always"@) && !same_ignoring_ascii_case(s@, "Never"@)
                && !same_ignoring_ascii_case(s@, "Finished"@) ==> (r matches Err(m) && m@
                == invalid_setting(s@, "sync_bookmarks"@)),
    {
        if eq_ignore_ascii_case(s, "Always") {
            Ok(SyncBookmarks::Always)
        } else if eq_ignore_ascii_case(s, "Never") {
            Ok(SyncBookmarks::Never)
        } else if eq_ignore_ascii_case(s, "Finished") {
            Ok(SyncBookmarks::Finished)
        } else {
            Err(invalid_setting_message(s, "sync_bookmarks"))
        }
    }
}

impl SyncOnClose {
    /// Reads the setting from its name, in any case of ASCII letters, or from
    /// a number of up to 255.
    pub fn from_name(s: &str) -> (r: Result<SyncOnClose, String>)
        ensures
            same_ignoring_ascii_case(s@, "Always"@) ==> r == Ok::<SyncOnClose, String>(SyncOnClose::Always),
            !same_ignoring_ascii_case(s@, "Always"@) && same_ignoring_ascii_case(s@, "Never"@) ==> r
                == Ok::<SyncOnClose, String>(SyncOnClose::Never),
            !same_ignoring_ascii_case(s@, "Always"@) && !same_ignoring_ascii_case(s@, "Never"@)
                && parsed_u8(s@) is Some ==> r == Ok::<SyncOnClose, String>(
                SyncOnClose::Number(parsed_u8(s@)->0),
            ),
            !same_ignoring_ascii_case(s@, "Always"@) && !same_ignoring_ascii_case(s@, "Never"@)
                && parsed_u8(s@) is None ==> (r matches Err(m) && m@ == invalid_setting(
                s@,
                "sync_on_close"@,
            )),
    {
        if eq_ignore_ascii_case(s, "Always") {
            Ok(SyncOnClose::Always)
        } else if eq_ignore_ascii_case(s, "Never") {
            Ok(SyncOnClose::Never)
        } else {
            match parse_u8(s) {
                Some(n) => Ok(SyncOnClose::Number(n)),
                None => Err(invalid_setting_message(s, "sync_on_close")),
            }
        }
    }
}

/// The authorization header value for a configured token: the token itself
/// where it is empty or already a bearer token, else the token after
/// `Bearer `.
pub open spec fn bearer_of(token: Seq<char>) -> Seq<char> {
    if token.len() == 0 || ("Bearer"@.len() <= token.len() && token.take("Bearer"@.len() as int)
        == "Bearer"@) {
        token
    } else {
        "Bearer "@ + token
    }
}

/// The authorization header value for a configured token.
pub fn bearer_authorization(token: String) -> (r: String)
    ensures
        r@ == bearer_of(token@),
{
    if token.unicode_len() == 0 || starts_with(token.as_str(), "Bearer") {
        token
    } else {
        let mut r = String::from_str("Bearer ");
        r.append(token.as_str());
        r
    }
}

/// `msg` followed by each message of an error's chain of causes, the error's
/// own first, each after `<br>> `.
pub open spec fn report_of(msg: Seq<char>, chain: Seq<Seq<char>>) -> Seq<char>
    decreases chain.len(),
{
    if chain.len() == 0 {
        msg
    } else {
        report_of(msg, chain.drop_last()) + "<br>> "@ + chain.last()
    }
}

/// The report of an error: `msg`, then the error's message and that of each
/// of its causes in turn, each after `<br>> `.
pub fn report(msg: &str, chain: &Vec<String>) -> (r: String)
    ensures
        r@ == report_of(msg@, crate::text::views(chain@)),
{
    let mut out = String::from_str(msg);
    let mut i: usize = 0;
    while i < chain.len()
        invariant
            i <= chain@.len(),
            out@ == report_of(msg@, crate::text::views(chain@.subrange(0, i as int))),
        decreases chain.len() - i,
    {
        assert(crate::text::views(chain@.subrange(0, i + 1)).drop_last() =~= crate::text::views(
            chain@.subrange(0, i as int),
        ));
        out.append("<br>> ");
        out.append(chain[i].as_str());
        i = i + 1;
    }
    assert(chain@.subrange(0, chain@.len() as int) =~= chain@);
    out
}

} // verus!
