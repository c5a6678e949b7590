//! Derived names for houses and rooms, and first-match lookup by name.
//!
//! A house owned by `o` is named `{o}_HOUSE`; its `i`-th room (1-based,
//! fixed at the room's creation) is named `{house_name}_{i}_ROOM`.

use vstd::prelude::*;

verus! {

/// The character for a single decimal digit.
pub open spec fn digit_char(d: nat) -> char {
    if d == 0 {
        '0'
    } else if d == 1 {
        '1'
    } else if d == 2 {
        '2'
    } else if d == 3 {
        '3'
    } else if d == 4 {
        '4'
    } else if d == 5 {
        '5'
    } else if d == 6 {
        '6'
    } else if d == 7 {
        '7'
    } else if d == 8 {
        '8'
    } else {
        '9'
    }
}

/// The decimal rendering of `n`, most significant digit first, no leading
/// zeros (except for `n == 0`, rendered as "0").
pub open spec fn dec_digits(n: nat) -> Seq<char>
    decreases n,
{
    if n < 10 {
        seq![digit_char(n)]
    } else {
        dec_digits(n / 10) + seq![digit_char(n % 10)]
    }
}

/// The name of a house whose owner is named `owner`.
pub open spec fn house_name_seq(owner: Seq<char>) -> Seq<char> {
    owner + "_HOUSE"@
}

/// The name of the room created as the `index`-th (1-based) of the house
/// named `house`.
pub open spec fn room_name_seq(house: Seq<char>, index: nat) -> Seq<char> {
    house + "_"@ + dec_digits(index) + "_ROOM"@
}

/// The index of the first occurrence of `target` in `names`, or
/// `names.len()` when `target` does not occur.
pub open spec fn find_name(names: Seq<Seq<char>>, target: Seq<char>) -> int
    decreases names.len(),
{
    if names.len() == 0 {
        0
    } else if names[0] == target {
        0
    } else {
        1 + find_name(names.drop_first(), target)
    }
}

/// `find_name` stays within bounds, lands on a match when one exists, and
/// nothing before it matches.
pub proof fn lemma_find_name(names: Seq<Seq<char>>, target: Seq<char>)
    ensures
        0 <= find_name(names, target) <= names.len(),
        find_name(names, target) < names.len() ==> names[find_name(names, target)] == target,
        forall|k: int| 0 <= k < find_name(names, target) ==> names[k] != target,
    decreases names.len(),
{
    if names.len() == 0 {
    } else if names[0] == target {
    } else {
        lemma_find_name(names.drop_first(), target);
        assert forall|k: int| 0 <= k < find_name(names, target) implies names[k] != target by {
            if k > 0 {
                assert(names.drop_first()[k - 1] == names[k]);
            }
        }
    }
}

/// `find_name` returns exactly the index of the first match.
pub proof fn lemma_find_name_at(names: Seq<Seq<char>>, target: Seq<char>, i: int)
    requires
        0 <= i < names.len(),
        names[i] == target,
        forall|k: int| 0 <= k < i ==> names[k] != target,
    ensures
        find_name(names, target) == i,
{
    lemma_find_name(names, target);
    let r = find_name(names, target);
    if r < i {
        assert(names[r] == target);
    } else if r > i {
        assert(names[i] != target);
    }
}

/// When no entry matches, `find_name` returns `names.len()`.
pub proof fn lemma_find_name_none(names: Seq<Seq<char>>, target: Seq<char>)
    requires
        forall|k: int| 0 <= k < names.len() ==> names[k] != target,
    ensures
        find_name(names, target) == names.len(),
{
    lemma_find_name(names, target);
    let r = find_name(names, target);
    if r < names.len() {
        assert(names[r] != target);
    }
}

/// The string for one decimal digit.
fn digit_str(d: u64) -> (s: &'static str)
    requires
        d < 10,
    ensures
        s@ == seq![digit_char(d as nat)],
{
    let s: &'static str = if d == 0 {
        "0"
    } else if d == 1 {
        "1"
    } else if d == 2 {
        "2"
    } else if d == 3 {
        "3"
    } else if d == 4 {
        "4"
    } else if d == 5 {
        "5"
    } else if d == 6 {
        "6"
    } else if d == 7 {
        "7"
    } else if d == 8 {
        "8"
    } else {
        "9"
    };
    proof {
        reveal_strlit("0");
        reveal_strlit("1");
        reveal_strlit("2");
        reveal_strlit("3");
        reveal_strlit("4");
        reveal_strlit("5");
        reveal_strlit("6");
        reveal_strlit("7");
        reveal_strlit("8");
        reveal_strlit("9");
        assert(s@ =~= seq![digit_char(d as nat)]);
    }
    s
}

/// Renders `n` in decimal.
pub fn u64_to_dec(n: u64) -> (s: String)
    ensures
        s@ == dec_digits(n as nat),
    decreases n,
{
    if n < 10 {
        String::from_str(digit_str(n))
    } else {
        let mut s = u64_to_dec(n / 10);
        s.append(digit_str(n % 10));
        proof {
            assert(s@ =~= dec_digits(n as nat));
        }
        s
    }
}

/// Builds the house name for an owner.
pub fn make_house_name(owner: &str) -> (s: String)
    ensures
        s@ == house_name_seq(owner@),
{
    let mut s = String::from_str(owner);
    s.append("_HOUSE");
    s
}

/// Builds the name of the `index`-th (1-based) room of the house named
/// `house`.
pub fn make_room_name(house: &str, index: u64) -> (s: String)
    ensures
        s@ == room_name_seq(house@, index as nat),
{
    let mut s = String::from_str(house);
    s.append("_");
    let digits = u64_to_dec(index);
    s.append(digits.as_str());
    s.append("_ROOM");
    proof {
        assert(s@ =~= room_name_seq(house@, index as nat));
    }
    s
}

/// The room-name pattern written out: the `i`-th room of `owner`'s house is
/// named `{owner}_HOUSE_{i}_ROOM`.
pub proof fn lemma_room_name_pattern(owner: Seq<char>, i: nat)
    ensures
        room_name_seq(house_name_seq(owner), i) == owner + "_HOUSE_"@ + dec_digits(i) + "_ROOM"@,
{
    reveal_strlit("_HOUSE");
    reveal_strlit("_");
    reveal_strlit("_HOUSE_");
    assert(room_name_seq(house_name_seq(owner), i) =~= owner + "_HOUSE_"@ + dec_digits(i)
        + "_ROOM"@);
}

} // verus!
