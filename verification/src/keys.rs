//! Session identity: the (chat, user) pair and its canonical string form.
//!
//! In memory every session is addressed by the structured pair. The string
//! form `"chat_id:user_id"` exists only for the persisted snapshots, whose
//! keys must be strings, and for the reset allow-list.

use vstd::prelude::*;
use vstd::string::StringExecFns;

verus! {

/// Composite identity of one game session: a chat and a user within it.
#[derive(Clone, Copy, Debug, PartialEq, Eq, Hash, Structural)]
pub struct SessionKey {
    pub chat_id: i64,
    pub user_id: u64,
}

/// The character standing for one decimal digit.
pub open spec fn digit_char(d: nat) -> char {
    if d == 0 {
        '0'
    } else if d == 1 {
        '1'
    } else if d == 2 {
        '2'
    } else if d == 3 {
        '3'
    } else if d == 4 {
        '4'
    } else if d == 5 {
        '5'
    } else if d == 6 {
        '6'
    } else if d == 7 {
        '7'
    } else if d == 8 {
        '8'
    } else {
        '9'
    }
}

/// The decimal digits of a non-negative number, most significant first.
pub open spec fn dec_str(n: nat) -> Seq<char>
    decreases n,
{
    if n < 10 {
        seq![digit_char(n)]
    } else {
        dec_str(n / 10).push(digit_char(n % 10))
    }
}

/// The decimal form of a possibly negative number: a leading minus sign
/// followed by the digits of its magnitude.
pub open spec fn dec_str_signed(n: int) -> Seq<char> {
    if n < 0 {
        seq!['-'] + dec_str((-n) as nat)
    } else {
        dec_str(n as nat)
    }
}

/// The canonical string form of a session key: `"chat_id:user_id"`.
pub open spec fn composite_of(chat_id: int, user_id: nat) -> Seq<char> {
    dec_str_signed(chat_id) + seq![':'] + dec_str(user_id)
}

fn digit_str(d: u64) -> (s: &'static str)
    requires
        d < 10,
    ensures
        s@ == seq![digit_char(d as nat)],
{
    proof {
        reveal_strlit("0");
        reveal_strlit("1");
        reveal_strlit("2");
        reveal_strlit("3");
        reveal_strlit("4");
        reveal_strlit("5");
        reveal_strlit("6");
        reveal_strlit("7");
        reveal_strlit("8");
        reveal_strlit("9");
    }
    let s: &'static str = if d == 0 {
        "0"
    } else if d == 1 {
        "1"
    } else if d == 2 {
        "2"
    } else if d == 3 {
        "3"
    } else if d == 4 {
        "4"
    } else if d == 5 {
        "5"
    } else if d == 6 {
        "6"
    } else if d == 7 {
        "7"
    } else if d == 8 {
        "8"
    } else {
        "9"
    };
    proof {
        assert(s@ =~= seq![digit_char(d as nat)]);
    }
    s
}

/// Render a non-negative number in decimal.
pub fn u64_to_decimal(n: u64) -> (s: String)
    ensures
        s@ == dec_str(n as nat),
    decreases n,
{
    if n < 10 {
        digit_str(n).to_owned()
    } else {
        let mut s = u64_to_decimal(n / 10);
        s.append(digit_str(n % 10));
        proof {
            assert(s@ =~= dec_str(n as nat));
        }
        s
    }
}

/// Render a possibly negative number in decimal.
pub fn i64_to_decimal(n: i64) -> (s: String)
    ensures
        s@ == dec_str_signed(n as int),
{
    if n >= 0 {
        u64_to_decimal(n as u64)
    } else {
        let magnitude: u64 = ((-(n + 1)) as u64) + 1;
        assert(magnitude == -(n as int));
        let mut s = "-".to_owned();
        s.append(u64_to_decimal(magnitude).as_str());
        proof {
            reveal_strlit("-");
            assert(s@ =~= dec_str_signed(n as int));
        }
        s
    }
}

impl SessionKey {
    /// The canonical string form of this key.
    pub open spec fn composite(&self) -> Seq<char> {
        composite_of(self.chat_id as int, self.user_id as nat)
    }

    /// The canonical `"chat_id:user_id"` string used as key of the
    /// persisted snapshots and of the reset allow-list.
    pub fn canonical(&self) -> (s: String)
        ensures
            s@ == self.composite(),
    {
        let mut s = i64_to_decimal(self.chat_id);
        s.append(":");
        s.append(u64_to_decimal(self.user_id).as_str());
        proof {
            reveal_strlit(":");
            assert(s@ =~= composite_of(self.chat_id as int, self.user_id as nat));
        }
        s
    }
}

} // verus!
