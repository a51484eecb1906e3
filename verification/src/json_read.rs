//! Reading of a JSON object whose members are integers, written without white space.
use vstd::prelude::*;

verus! {

/// The number that a decimal digit stands for.
pub open spec fn digit_value(c: char) -> int {
    c as int - '0' as int
}

/// The number that a row of decimal digits stands for.
pub open spec fn digits_value(digits: Seq<char>) -> int
    decreases digits.len(),
{
    if digits.len() == 0 {
        0
    } else {
        10 * digits_value(digits.drop_last()) + digit_value(digits.last())
    }
}

/// Whether `text` is a row of decimal digits without leading zeros.
pub open spec fn is_natural(text: Seq<char>) -> bool {
    &&& text.len() > 0
    &&& forall|i: int| 0 <= i < text.len() ==> '0' <= #[trigger] text[i] <= '9'
    &&& text[0] == '0' ==> text.len() == 1
}

/// Whether `text` is a decimal integer: digits, behind a minus sign or not.
pub open spec fn is_integer(text: Seq<char>) -> bool {
    is_natural(text) || text.len() > 0 && text[0] == '-' && is_natural(text.drop_first())
}

/// The number that a decimal integer stands for.
pub open spec fn integer_value(text: Seq<char>) -> int {
    if text.len() > 0 && text[0] == '-' {
        -digits_value(text.drop_first())
    } else {
        digits_value(text)
    }
}

/// The number of characters in front of the first one that is `a` or `b`.
pub open spec fn span(text: Seq<char>, a: char, b: char) -> nat
    decreases text.len(),
{
    if text.len() == 0 || text[0] == a || text[0] == b {
        0
    } else {
        1 + span(text.drop_first(), a, b)
    }
}

/// The members of an object, from a member on to the closing brace, each with its
/// name and its value; none if the text is not of that form.
pub open spec fn read_members(text: Seq<char>) -> Option<Seq<(Seq<char>, int)>>
    decreases text.len(),
{
    let behind_quote = text.skip(1);
    let name_len = span(behind_quote, '"', '"') as int;
    let behind_name = behind_quote.skip(name_len);
    let behind_colon = behind_name.skip(2);
    let number_len = span(behind_colon, ',', '}') as int;
    let behind_number = behind_colon.skip(number_len);
    if text.len() == 0 || text[0] != '"' || behind_name.len() < 2 || behind_name[1] != ':'
        || behind_number.len() == 0 || !is_integer(behind_colon.take(number_len)) {
        None
    } else {
        let member = (behind_quote.take(name_len), integer_value(behind_colon.take(number_len)));
        if behind_number[0] == '}' {
            if behind_number.len() == 1 {
                Some(seq![member])
            } else {
                None
            }
        } else if behind_number.len() < text.len() {
            match read_members(behind_number.skip(1)) {
                Some(rest) => Some(seq![member] + rest),
                None => None,
            }
        } else {
            None
        }
    }
}

/// The members of a JSON object, in order; none if the text is no such object.
pub open spec fn read_object(text: Seq<char>) -> Option<Seq<(Seq<char>, int)>> {
    if text.len() > 0 && text[0] == '{' {
        read_members(text.skip(1))
    } else {
        None
    }
}

/// A text without the characters that are looked for is spanned up to the first one
/// behind it.
pub proof fn span_of(front: Seq<char>, rest: Seq<char>, a: char, b: char)
    requires
        forall|i: int| 0 <= i < front.len() ==> #[trigger] front[i] != a && front[i] != b,
        rest.len() > 0,
        rest[0] == a || rest[0] == b,
    ensures
        span(front + rest, a, b) == front.len(),
    decreases front.len(),
{
    let text = front + rest;
    if front.len() == 0 {
        assert(text =~= rest);
    } else {
        assert(text[0] == front[0]);
        assert(text.drop_first() =~= front.drop_first() + rest);
        assert forall|i: int| 0 <= i < front.drop_first().len() implies #[trigger] front.drop_first()[i]
            != a && front.drop_first()[i] != b by {
            assert(front.drop_first()[i] == front[i + 1]);
        }
        span_of(front.drop_first(), rest, a, b);
    }
}

/// Reading a member with the name `name` and the number `number`, followed by `rest`.
pub proof fn read_one_member(name: Seq<char>, number: Seq<char>, rest: Seq<char>)
    requires
        forall|i: int| 0 <= i < name.len() ==> #[trigger] name[i] != '"',
        is_integer(number),
        rest.len() > 0,
        rest[0] == ',' || rest =~= seq!['}'],
    ensures
        ({
            let text = seq!['"'] + name + seq!['"', ':'] + number + rest;
            let member = (name, integer_value(number));
            read_members(text) == if rest[0] == '}' {
                Some(seq![member])
            } else {
                match read_members(rest.skip(1)) {
                    Some(members) => Some(seq![member] + members),
                    None => None,
                }
            }
        }),
{
    let text = seq!['"'] + name + seq!['"', ':'] + number + rest;
    let behind_quote = text.skip(1);
    assert(behind_quote =~= name + (seq!['"', ':'] + number + rest));
    span_of(name, seq!['"', ':'] + number + rest, '"', '"');
    let behind_name = behind_quote.skip(name.len() as int);
    assert(behind_name =~= seq!['"', ':'] + number + rest);
    let behind_colon = behind_name.skip(2);
    assert(behind_colon =~= number + rest);
    assert forall|i: int| 0 <= i < number.len() implies #[trigger] number[i] != ',' && number[i]
        != '}' by {
        if !is_natural(number) && i > 0 {
            assert(number.drop_first()[i - 1] == number[i]);
        }
    }
    span_of(number, rest, ',', '}');
    assert(behind_colon.skip(number.len() as int) =~= rest);
    assert(behind_colon.take(number.len() as int) =~= number);
    assert(behind_quote.take(name.len() as int) =~= name);
}

} // verus!
