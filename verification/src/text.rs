//! Rendering identifiers into the strings that error values carry: a
//! verified decimal printer, the per-namespace id prefixes, and joining a
//! list of rendered ids with a separator.

use vstd::prelude::*;

use crate::ids::{ClusterId, DatabaseId, GlobalId, ReplicaId, RoleId, SchemaId};
use crate::objects::Timeline;

verus! {

/// The character of one decimal digit.
pub open spec fn dec_digit(d: nat) -> char {
    if d == 0 {
        '0'
    } else if d == 1 {
        '1'
    } else if d == 2 {
        '2'
    } else if d == 3 {
        '3'
    } else if d == 4 {
        '4'
    } else if d == 5 {
        '5'
    } else if d == 6 {
        '6'
    } else if d == 7 {
        '7'
    } else if d == 8 {
        '8'
    } else {
        '9'
    }
}

/// The decimal rendering of a number, most significant digit first, with
/// no leading zeros (zero itself renders as one digit).
pub open spec fn dec_seq(n: nat) -> Seq<char>
    decreases n,
{
    if n < 10 {
        seq![dec_digit(n)]
    } else {
        dec_seq(n / 10).push(dec_digit(n % 10))
    }
}

fn digit_str(d: u64) -> (r: &'static str)
    requires
        d < 10,
    ensures
        r@ == seq![dec_digit(d as nat)],
{
    proof {
        reveal_strlit("0");
        reveal_strlit("1");
        reveal_strlit("2");
        reveal_strlit("3");
        reveal_strlit("4");
        reveal_strlit("5");
        reveal_strlit("6");
        reveal_strlit("7");
        reveal_strlit("8");
        reveal_strlit("9");
        assert(("0")@ =~= seq!['0']);
        assert(("1")@ =~= seq!['1']);
        assert(("2")@ =~= seq!['2']);
        assert(("3")@ =~= seq!['3']);
        assert(("4")@ =~= seq!['4']);
        assert(("5")@ =~= seq!['5']);
        assert(("6")@ =~= seq!['6']);
        assert(("7")@ =~= seq!['7']);
        assert(("8")@ =~= seq!['8']);
        assert(("9")@ =~= seq!['9']);
    }
    if d == 0 {
        "0"
    } else if d == 1 {
        "1"
    } else if d == 2 {
        "2"
    } else if d == 3 {
        "3"
    } else if d == 4 {
        "4"
    } else if d == 5 {
        "5"
    } else if d == 6 {
        "6"
    } else if d == 7 {
        "7"
    } else if d == 8 {
        "8"
    } else {
        "9"
    }
}

/// Renders a number in decimal.
pub fn fmt_u64(n: u64) -> (r: String)
    ensures
        r@ == dec_seq(n as nat),
    decreases n,
{
    if n < 10 {
        digit_str(n).to_owned()
    } else {
        let mut s = fmt_u64(n / 10);
        s.append(digit_str(n % 10));
        proof {
            assert(s@ =~= dec_seq(n as nat));
        }
        s
    }
}

/// A string of the given prefix followed by the decimal rendering of `n`.
fn prefixed_u64(prefix: &str, n: u64) -> (r: String)
    ensures
        r@ == prefix@ + dec_seq(n as nat),
{
    let mut s = prefix.to_owned();
    let digits = fmt_u64(n);
    s.append(digits.as_str());
    s
}

impl GlobalId {
    /// The rendering of an item id: its namespace prefix and counter.
    pub open spec fn text_spec(self) -> Seq<char> {
        match self {
            GlobalId::System(n) => "s"@ + dec_seq(n as nat),
            GlobalId::User(n) => "u"@ + dec_seq(n as nat),
            GlobalId::Transient(n) => "t"@ + dec_seq(n as nat),
            GlobalId::Explain => "Explain"@,
        }
    }

    /// Renders the id as text.
    pub fn to_text(&self) -> (r: String)
        ensures
            r@ == self.text_spec(),
    {
        match self {
            GlobalId::System(n) => prefixed_u64("s", *n),
            GlobalId::User(n) => prefixed_u64("u", *n),
            GlobalId::Transient(n) => prefixed_u64("t", *n),
            GlobalId::Explain => "Explain".to_owned(),
        }
    }
}

impl DatabaseId {
    /// The rendering of a database id.
    pub open spec fn text_spec(self) -> Seq<char> {
        match self {
            DatabaseId::User(n) => "u"@ + dec_seq(n as nat),
            DatabaseId::System(n) => "s"@ + dec_seq(n as nat),
        }
    }

    /// Renders the id as text.
    pub fn to_text(&self) -> (r: String)
        ensures
            r@ == self.text_spec(),
    {
        match self {
            DatabaseId::User(n) => prefixed_u64("u", *n),
            DatabaseId::System(n) => prefixed_u64("s", *n),
        }
    }
}

impl SchemaId {
    /// The rendering of a schema id.
    pub open spec fn text_spec(self) -> Seq<char> {
        match self {
            SchemaId::User(n) => "u"@ + dec_seq(n as nat),
            SchemaId::System(n) => "s"@ + dec_seq(n as nat),
        }
    }

    /// Renders the id as text.
    pub fn to_text(&self) -> (r: String)
        ensures
            r@ == self.text_spec(),
    {
        match self {
            SchemaId::User(n) => prefixed_u64("u", *n),
            SchemaId::System(n) => prefixed_u64("s", *n),
        }
    }
}

impl RoleId {
    /// The rendering of a role id.
    pub open spec fn text_spec(self) -> Seq<char> {
        match self {
            RoleId::User(n) => "u"@ + dec_seq(n as nat),
            RoleId::System(n) => "s"@ + dec_seq(n as nat),
            RoleId::Public => "p"@,
        }
    }

    /// Renders the id as text.
    pub fn to_text(&self) -> (r: String)
        ensures
            r@ == self.text_spec(),
    {
        match self {
            RoleId::User(n) => prefixed_u64("u", *n),
            RoleId::System(n) => prefixed_u64("s", *n),
            RoleId::Public => "p".to_owned(),
        }
    }
}

impl ClusterId {
    /// The rendering of a cluster id.
    pub open spec fn text_spec(self) -> Seq<char> {
        match self {
            ClusterId::User(n) => "u"@ + dec_seq(n as nat),
            ClusterId::System(n) => "s"@ + dec_seq(n as nat),
        }
    }

    /// Renders the id as text.
    pub fn to_text(&self) -> (r: String)
        ensures
            r@ == self.text_spec(),
    {
        match self {
            ClusterId::User(n) => prefixed_u64("u", *n),
            ClusterId::System(n) => prefixed_u64("s", *n),
        }
    }
}

impl ReplicaId {
    /// The rendering of a replica id.
    pub open spec fn text_spec(self) -> Seq<char> {
        match self {
            ReplicaId::User(n) => "u"@ + dec_seq(n as nat),
            ReplicaId::System(n) => "s"@ + dec_seq(n as nat),
        }
    }

    /// Renders the id as text.
    pub fn to_text(&self) -> (r: String)
        ensures
            r@ == self.text_spec(),
    {
        match self {
            ReplicaId::User(n) => prefixed_u64("u", *n),
            ReplicaId::System(n) => prefixed_u64("s", *n),
        }
    }
}

impl Timeline {
    /// The rendering of a timeline name, used as the timestamps table key.
    pub open spec fn text_spec(self) -> Seq<char> {
        match self {
            Timeline::EpochMilliseconds => "M"@,
            Timeline::External(s) => "E."@ + s@,
            Timeline::User(s) => "U."@ + s@,
        }
    }

    /// Renders the timeline as text.
    pub fn to_text(&self) -> (r: String)
        ensures
            r@ == self.text_spec(),
    {
        match self {
            Timeline::EpochMilliseconds => "M".to_owned(),
            Timeline::External(s) => {
                let mut r = "E.".to_owned();
                r.append(s.as_str());
                r
            },
            Timeline::User(s) => {
                let mut r = "U.".to_owned();
                r.append(s.as_str());
                r
            },
        }
    }
}

/// The given strings joined with the separator between consecutive
/// elements; the empty list joins to the empty string.
pub open spec fn join_sep(parts: Seq<Seq<char>>, sep: Seq<char>) -> Seq<char>
    decreases parts.len(),
{
    if parts.len() == 0 {
        Seq::empty()
    } else if parts.len() == 1 {
        parts[0]
    } else {
        join_sep(parts.drop_last(), sep) + sep + parts.last()
    }
}

/// Relies on itertools::Itertools::join: concatenates the rendered
/// elements with the separator between consecutive elements; for string
/// elements the rendering is the string itself.
#[verifier::external_body]
fn join_strings(parts: &Vec<String>, sep: &str) -> (r: String)
    ensures
        r@ == join_sep(parts@.map_values(|p: String| p@), sep@),
{
    itertools::Itertools::join(&mut parts.iter(), sep)
}

/// Joins rendered strings with the given separator.
pub fn join_with(parts: &Vec<String>, sep: &str) -> (r: String)
    ensures
        r@ == join_sep(parts@.map_values(|p: String| p@), sep@),
{
    join_strings(parts, sep)
}

} // verus!
