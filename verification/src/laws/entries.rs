//! What holds of access lists as they are written, and of roles, choices and lists that are not given.
use crate::acl::{
    may_read, may_write, written_entry, written_interest, written_principle, Acl, Interest,
    Principle, Role,
};
use crate::choices::has_key;
use crate::digits::{byte_number, decimal, is_digit, signed_number};
use crate::entity::{
    choice_name, default_attributes, fresh_choices, fresh_choices_are_the_names, no_restrictions,
};
use crate::json::Json;
use crate::laws::texts::{
    lemma_split_known, stands_at, texts_are_split_at_the_first_place, written_numbers_read_back,
};
use crate::text::split_once;
use vstd::prelude::*;

verus! {

/// Roles are read back by their names.
pub proof fn role_names_read_back(role: Role)
    ensures
        Role::named(role.name()) == Some(role),
        role is Host <==> role.name() == "host"@,
        role is Player <==> role.name() == "player"@,
        role is Audience <==> role.name() == "audience"@,
        role is Moderator <==> role.name() == "moderator"@,
{
    reveal_strlit("host");
    reveal_strlit("player");
    reveal_strlit("audience");
    reveal_strlit("moderator");
    assert("host"@[0] == 'h' && "player"@[0] == 'p' && "audience"@[0] == 'a' && "moderator"@[0]
        == 'm');
}

/// A text names a role only where it is the name of the role.
pub proof fn only_names_name_roles(name: Seq<char>)
    ensures
        Role::named(name) matches Some(role) ==> role.name() == name,
{
}

/// The letters that say what an entry allows.
pub open spec fn letters(interest: Interest) -> Seq<char> {
    (if interest.readable {
        seq!['r']
    } else {
        seq![]
    }) + (if interest.writable {
        seq!['w']
    } else {
        seq![]
    })
}

/// The words that say whom an entry speaks of.
pub open spec fn words(principle: Principle) -> Seq<char> {
    match principle {
        Principle::All => seq!['*'],
        Principle::Role(role) => "role:"@ + role.name(),
        Principle::Id(id) => "id:"@ + decimal(id as int),
    }
}

/// A text is split where a character stands for the first time.
proof fn lemma_split_at(head: Seq<char>, mark: Seq<char>, tail: Seq<char>)
    requires
        mark.len() == 1,
        !head.contains(mark[0]),
    ensures
        split_once(head + mark + tail, mark) == Some((head, tail)),
{
    let whole = head + mark + tail;
    assert forall|j: int| 0 <= j < head.len() implies !#[trigger] stands_at(whole, mark, j) by {
        if stands_at(whole, mark, j) {
            assert(whole[j + 0] == mark[0]);
            assert(head.contains(head[j]));
        }
    }
    lemma_split_known(head, mark, tail);
}

/// What an entry allows is read back.
proof fn lemma_letters(interest: Interest)
    requires
        interest.readable || interest.writable,
    ensures
        written_interest(letters(interest)) == Some(interest),
        !letters(interest).contains(' '),
{
    reveal_strlit("r");
    reveal_strlit("w");
    reveal_strlit("rw");
    let text = letters(interest);
    if interest.readable && interest.writable {
        assert(text =~= "rw"@);
        assert("rw"@.len() == 2 && "r"@.len() == 1 && "w"@.len() == 1);
    } else if interest.readable {
        assert(text =~= "r"@);
    } else {
        assert(text =~= "w"@);
        assert("w"@[0] == 'w' && "r"@[0] == 'r');
    }
}

/// Whom an entry speaks of is read back.
proof fn lemma_words(principle: Principle)
    ensures
        written_principle(words(principle)) == Some(principle),
{
    reveal_strlit("*");
    reveal_strlit(":");
    reveal_strlit("id");
    reveal_strlit("role");
    reveal_strlit("id:");
    reveal_strlit("role:");
    let text = words(principle);
    match principle {
        Principle::All => {
            assert(text =~= "*"@);
        },
        Principle::Role(role) => {
            assert("role:"@ =~= "role"@ + ":"@);
            assert(text =~= "role"@ + ":"@ + role.name());
            lemma_split_at("role"@, ":"@, role.name());
            role_names_read_back(role);
            assert(text[0] == 'r');
            assert("role"@[0] == 'r' && "id"@[0] == 'i');
        },
        Principle::Id(id) => {
            assert("id:"@ =~= "id"@ + ":"@);
            assert(text =~= "id"@ + ":"@ + decimal(id as int));
            lemma_split_at("id"@, ":"@, decimal(id as int));
            written_numbers_read_back(id);
            assert(text[0] == 'i');
        },
    }
}

/// An entry that allows something is read back from the letters that say what it allows, a space, and the
/// words that say whom it speaks of.
pub proof fn entries_read_back(entry: Acl)
    requires
        entry.interest.readable || entry.interest.writable,
    ensures
        written_entry(letters(entry.interest) + " "@ + words(entry.principle)) == Some(entry),
{
    reveal_strlit(" ");
    lemma_letters(entry.interest);
    lemma_words(entry.principle);
    lemma_split_at(letters(entry.interest), " "@, words(entry.principle));
}

/// A text is an entry only where it begins with the letters that say what the entry allows and a space, and
/// the rest says whom it speaks of. Roles and everyone are written in one way each.
pub proof fn other_texts_are_no_entries(text: Seq<char>)
    ensures
        written_entry(text) matches Some(entry) ==> {
            let begin = letters(entry.interest) + " "@;
            &&& entry.interest.readable || entry.interest.writable
            &&& begin.len() <= text.len()
            &&& text.take(begin.len() as int) == begin
            &&& ({
                let rest = text.skip(begin.len() as int);
                match entry.principle {
                    Principle::Id(id) => {
                        &&& rest.len() > 3
                        &&& rest.take(3) == "id:"@
                        &&& signed_number(rest.skip(3)) == Some(id)
                    },
                    _ => rest == words(entry.principle),
                }
            })
        },
{
    if written_entry(text) is Some {
        let entry = written_entry(text)->Some_0;
        reveal_strlit("r");
        reveal_strlit("w");
        reveal_strlit("rw");
        reveal_strlit(" ");
        reveal_strlit("*");
        reveal_strlit(":");
        reveal_strlit("id");
        reveal_strlit("role");
        reveal_strlit("id:");
        reveal_strlit("role:");
        texts_are_split_at_the_first_place(text, " "@);
        let (interest, principle) = split_once(text, " "@)->Some_0;
        assert(interest =~= letters(entry.interest));
        let begin = letters(entry.interest) + " "@;
        assert(text.take(begin.len() as int) =~= begin);
        assert(text.skip(begin.len() as int) =~= principle);
        texts_are_split_at_the_first_place(principle, ":"@);
        if principle == "*"@ {
            assert(principle =~= words(Principle::All));
        } else {
            let (kind, value) = split_once(principle, ":"@)->Some_0;
            if kind == "id"@ {
                assert(principle.take(3) =~= "id:"@);
                assert(principle.skip(3) =~= value);
            } else {
                only_names_name_roles(value);
                assert("role:"@ =~= "role"@ + ":"@);
                assert(principle =~= "role:"@ + value);
            }
        }
    }
}

/// A text is a number only where it holds digits alone, but for a sign before them.
pub proof fn other_texts_are_no_numbers(s: Seq<char>, i: int)
    requires
        0 <= i < s.len(),
        !is_digit(s[i]),
        i > 0 || (s[i] != '-' && s[i] != '+') || s.len() == 1,
    ensures
        signed_number(s) is None,
        byte_number(s) is None,
        signed_number(seq![]) is None,
        byte_number(seq![]) is None,
{
    let rest = s.skip(1);
    if i > 0 {
        assert(rest[i - 1] == s[i]);
    }
}

/// A plus before digits changes nothing, a minus turns the number over, and a byte has none.
pub proof fn signs_count(digits: Seq<char>)
    requires
        digits.len() > 0,
        is_digit(digits[0]),
    ensures
        signed_number(seq!['+'] + digits) == signed_number(digits),
        byte_number(seq!['+'] + digits) == byte_number(digits),
        byte_number(seq!['-'] + digits) is None,
        signed_number(digits) matches Some(n) ==> n >= 0 && (signed_number(seq!['-'] + digits)
            matches Some(m) && m == -n),
{
    let plus = seq!['+'] + digits;
    let minus = seq!['-'] + digits;
    assert(plus.skip(1) =~= digits);
    assert(minus.skip(1) =~= digits);
    assert(minus[0] == '-');
}

/// Two interests together allow what either allows.
pub proof fn interests_add_up(a: Interest, b: Interest)
    ensures
        a.either(b).readable <==> a.readable || b.readable,
        a.either(b).writable <==> a.writable || b.writable,
{
}

/// Where no list is given, everyone reads and hosts alone write; nothing is locked, and there are no limits.
pub proof fn lists_that_are_not_given(role: Role, id: i64)
    ensures
        may_read(default_attributes().acl, role, id),
        may_write(default_attributes().acl, role, id) <==> role == Role::Host,
        !default_attributes().locked,
        default_attributes().acl.len() == 1,
        no_restrictions().min is None && no_restrictions().max is None
            && no_restrictions().increment is None && no_restrictions().data_type.len() == 0,
{
    let acl = default_attributes().acl;
    assert(crate::acl::entry_covers(acl, 0, role, id));
    assert forall|i: int| crate::acl::entry_covers(acl, i, role, id) implies i == 0 by {}
}

/// Values that are not lists or objects are choices: a text under itself, a number under its text, and the
/// rest under the words that they are written with.
pub proof fn values_name_choices(value: Json)
    ensures
        choice_name(value) is Err <==> value is Array || value is Object,
        value matches Json::Text(s) ==> choice_name(value)->Ok_0 == s@,
        value matches Json::Number { bits, text } ==> choice_name(value)->Ok_0 == text@,
        choice_name(Json::Bool(true))->Ok_0 == "true"@,
        choice_name(Json::Bool(false))->Ok_0 == "false"@,
        choice_name(Json::Null)->Ok_0 == "null"@,
        value is Array <==> choice_name(value) == Err::<Seq<char>, _>(
            crate::entity::ChoiceError::Array,
        ),
        value is Object <==> choice_name(value) == Err::<Seq<char>, _>(
            crate::entity::ChoiceError::Object,
        ),
{
}

/// Of two choices the one that was named first stands first.
pub proof fn choices_stand_in_the_order_of_their_names(names: Seq<Seq<char>>, i: int, j: int)
    requires
        0 <= i < j < fresh_choices(names).len(),
    ensures
        exists|a: int|
            {
                &&& 0 <= a < names.len()
                &&& #[trigger] names[a] == fresh_choices(names)[i].0
                &&& forall|b: int|
                    0 <= b <= a ==> #[trigger] names[b] != fresh_choices(names)[j].0
            },
    decreases names.len(),
{
    if names.len() > 0 {
        let shorter = names.drop_last();
        let before = fresh_choices(shorter);
        let after = fresh_choices(names);
        fresh_choices_are_the_names(shorter);
        if j < before.len() {
            choices_stand_in_the_order_of_their_names(shorter, i, j);
            let a = choose|a: int|
                {
                    &&& 0 <= a < shorter.len()
                    &&& #[trigger] shorter[a] == before[i].0
                    &&& forall|b: int| 0 <= b <= a ==> #[trigger] shorter[b] != before[j].0
                };
            assert(names[a] == after[i].0);
            assert forall|b: int| 0 <= b <= a implies #[trigger] names[b] != after[j].0 by {
                assert(shorter[b] == names[b]);
            }
        } else {
            assert(j == before.len());
            assert(crate::choices::key_at(before, i, before[i].0));
            assert(has_key(before, before[i].0));
            assert(shorter.contains(before[i].0));
            let a = choose|a: int| 0 <= a < shorter.len() && shorter[a] == before[i].0;
            assert(names[a] == after[i].0);
            assert forall|b: int| 0 <= b <= a implies #[trigger] names[b] != after[j].0 by {
                assert(shorter[b] == names[b]);
                if shorter[b] == names.last() {
                    assert(shorter.contains(names.last()));
                }
            }
        }
    }
}

} // verus!
