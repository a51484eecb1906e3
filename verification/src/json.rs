//! The JSON text of an event: one object, on one line of the output.
use crate::event::SyscallEvent;
use crate::json_read::{
    digits_value, integer_value, is_integer, is_natural, read_members, read_object, read_one_member,
};
use vstd::prelude::*;

verus! {

/// The decimal digit of a number below ten.
pub open spec fn digit(n: nat) -> char
    recommends
        n < 10,
{
    (('0' as nat) + n) as char
}

/// A natural number in decimal, without leading zeros.
pub open spec fn natural_text(n: nat) -> Seq<char>
    decreases n,
{
    if n < 10 {
        seq![digit(n)]
    } else {
        natural_text(n / 10).push(digit(n % 10))
    }
}

/// An integer in decimal, with a minus sign where it is negative.
pub open spec fn integer_text(n: int) -> Seq<char> {
    if n < 0 {
        seq!['-'] + natural_text((-n) as nat)
    } else {
        natural_text(n as nat)
    }
}

/// The error type of `serde_json`.
#[verifier::external_type_specification]
#[verifier::external_body]
pub struct ExJsonError(serde_json::Error);

/// `serde_json::to_string` on an `i128`: it succeeds, and the text is the number
/// in decimal, with a minus sign where it is negative and no leading zeros.
#[verifier::external_body]
fn json_integer(value: i128) -> (text: Result<String, serde_json::Error>)
    ensures
        text is Ok,
        text->Ok_0@ == integer_text(value as int),
{
    serde_json::to_string(&value)
}

/// The JSON object of an event: every field but the padding, in order of
/// declaration, with no white space.
pub open spec fn object_text(event: SyscallEvent) -> Seq<char> {
    "{\"timestamp_ns\":"@ + integer_text(event.timestamp_ns as int) + ",\"pid\":"@ + integer_text(
        event.pid as int,
    ) + ",\"tid\":"@ + integer_text(event.tid as int) + ",\"syscall_nr\":"@ + integer_text(
        event.syscall_nr as int,
    ) + ",\"kind\":"@ + integer_text(event.kind as int) + ",\"ret\":"@ + integer_text(
        event.ret as int,
    ) + "}"@
}

/// Appends `label` and the decimal text of `value` to `out`.
fn append_field(out: &mut String, label: &str, value: i128)
    ensures
        final(out)@ == old(out)@ + label@ + integer_text(value as int),
{
    out.append(label);
    let text: String = json_integer(value).unwrap();
    out.append(text.as_str());
}

impl SyscallEvent {
    /// The JSON object of the event, without a line end.
    pub fn to_json(&self) -> (text: String)
        ensures
            text@ == object_text(*self),
            read_object(text@) == Some(seq![
                ("timestamp_ns"@, self.timestamp_ns as int),
                ("pid"@, self.pid as int),
                ("tid"@, self.tid as int),
                ("syscall_nr"@, self.syscall_nr as int),
                ("kind"@, self.kind as int),
                ("ret"@, self.ret as int),
            ]),
    {
        let mut text: String = String::new();
        append_field(&mut text, "{\"timestamp_ns\":", self.timestamp_ns as i128);
        append_field(&mut text, ",\"pid\":", self.pid as i128);
        append_field(&mut text, ",\"tid\":", self.tid as i128);
        append_field(&mut text, ",\"syscall_nr\":", self.syscall_nr as i128);
        append_field(&mut text, ",\"kind\":", self.kind as i128);
        append_field(&mut text, ",\"ret\":", self.ret as i128);
        text.append("}");
        assert(text@ =~= object_text(*self));
        proof {
            object_text_reads_back(*self);
        }
        text
    }
}

/// A character of a decimal number.
pub open spec fn is_number_char(c: char) -> bool {
    c == '-' || '0' <= c <= '9'
}

/// Decimal text is made of digits and a sign, and there is some of it.
proof fn natural_text_chars(n: nat)
    ensures
        natural_text(n).len() > 0,
        forall|i: int| 0 <= i < natural_text(n).len() ==> '0' <= #[trigger] natural_text(n)[i] <= '9',
    decreases n,
{
    if n >= 10 {
        natural_text_chars(n / 10);
    }
}

proof fn integer_text_chars(n: int)
    ensures
        forall|i: int|
            0 <= i < integer_text(n).len() ==> is_number_char(#[trigger] integer_text(n)[i]),
{
    if n < 0 {
        natural_text_chars((-n) as nat);
    } else {
        natural_text_chars(n as nat);
    }
}

/// Different natural numbers have different texts.
proof fn natural_text_injective(a: nat, b: nat)
    requires
        natural_text(a) == natural_text(b),
    ensures
        a == b,
    decreases a,
{
    natural_text_chars(a / 10);
    natural_text_chars(b / 10);
    let ta = natural_text(a);
    let tb = natural_text(b);
    assert(ta.last() == digit(a % 10));
    assert(tb.last() == digit(b % 10));
    if a >= 10 && b >= 10 {
        assert(ta.drop_last() =~= natural_text(a / 10));
        assert(tb.drop_last() =~= natural_text(b / 10));
        natural_text_injective(a / 10, b / 10);
    }
}

/// Different integers have different texts.
pub proof fn integer_text_injective(a: int, b: int)
    requires
        integer_text(a) == integer_text(b),
    ensures
        a == b,
{
    natural_text_chars(if a < 0 { (-a) as nat } else { a as nat });
    natural_text_chars(if b < 0 { (-b) as nat } else { b as nat });
    assert(a < 0 <==> integer_text(a)[0] == '-') by {
        if a >= 0 {
            assert('0' <= natural_text(a as nat)[0]);
        }
    }
    assert(b < 0 <==> integer_text(b)[0] == '-') by {
        if b >= 0 {
            assert('0' <= natural_text(b as nat)[0]);
        }
    }
    if a < 0 {
        assert(integer_text(a).drop_first() =~= natural_text((-a) as nat));
        assert(integer_text(b).drop_first() =~= natural_text((-b) as nat));
        natural_text_injective((-a) as nat, (-b) as nat);
    } else {
        natural_text_injective(a as nat, b as nat);
    }
}

/// Text that starts with a number, followed by a character that is no part of
/// one, determines the number and what follows it.
proof fn number_then_rest(a: int, rest_a: Seq<char>, b: int, rest_b: Seq<char>)
    requires
        integer_text(a) + rest_a == integer_text(b) + rest_b,
        rest_a.len() > 0,
        rest_b.len() > 0,
        !is_number_char(rest_a[0]),
        !is_number_char(rest_b[0]),
    ensures
        a == b,
        rest_a == rest_b,
{
    let ta = integer_text(a);
    let tb = integer_text(b);
    integer_text_chars(a);
    integer_text_chars(b);
    if ta.len() < tb.len() {
        assert((ta + rest_a)[ta.len() as int] == rest_a[0]);
        assert((tb + rest_b)[ta.len() as int] == tb[ta.len() as int]);
    }
    if tb.len() < ta.len() {
        assert((tb + rest_b)[tb.len() as int] == rest_b[0]);
        assert((ta + rest_a)[tb.len() as int] == ta[tb.len() as int]);
    }
    assert(ta =~= (ta + rest_a).take(ta.len() as int));
    assert(tb =~= (tb + rest_b).take(tb.len() as int));
    assert(rest_a =~= (ta + rest_a).skip(ta.len() as int));
    assert(rest_b =~= (tb + rest_b).skip(tb.len() as int));
    integer_text_injective(a, b);
}

/// A field of the object and what follows it.
spec fn field_then(label: Seq<char>, value: int, rest: Seq<char>) -> Seq<char> {
    label + (integer_text(value) + rest)
}

/// The object from the field `ret` on, from `kind` on, and so forth.
spec fn from_ret(event: SyscallEvent) -> Seq<char> {
    field_then(",\"ret\":"@, event.ret as int, "}"@)
}

spec fn from_kind(event: SyscallEvent) -> Seq<char> {
    field_then(",\"kind\":"@, event.kind as int, from_ret(event))
}

spec fn from_syscall_nr(event: SyscallEvent) -> Seq<char> {
    field_then(",\"syscall_nr\":"@, event.syscall_nr as int, from_kind(event))
}

spec fn from_tid(event: SyscallEvent) -> Seq<char> {
    field_then(",\"tid\":"@, event.tid as int, from_syscall_nr(event))
}

spec fn from_pid(event: SyscallEvent) -> Seq<char> {
    field_then(",\"pid\":"@, event.pid as int, from_tid(event))
}

spec fn from_timestamp(event: SyscallEvent) -> Seq<char> {
    field_then("{\"timestamp_ns\":"@, event.timestamp_ns as int, from_pid(event))
}

proof fn field_then_nests(before: Seq<char>, label: Seq<char>, value: int, rest: Seq<char>)
    ensures
        before + label + integer_text(value) + rest == before + field_then(label, value, rest),
{
    assert(before + label + integer_text(value) + rest =~= before + field_then(label, value, rest));
}

proof fn object_text_nests(event: SyscallEvent)
    ensures
        object_text(event) == from_timestamp(event),
{
    let to_timestamp = "{\"timestamp_ns\":"@ + integer_text(event.timestamp_ns as int);
    let to_pid = to_timestamp + ",\"pid\":"@ + integer_text(event.pid as int);
    let to_tid = to_pid + ",\"tid\":"@ + integer_text(event.tid as int);
    let to_syscall_nr = to_tid + ",\"syscall_nr\":"@ + integer_text(event.syscall_nr as int);
    let to_kind = to_syscall_nr + ",\"kind\":"@ + integer_text(event.kind as int);
    field_then_nests(to_kind, ",\"ret\":"@, event.ret as int, "}"@);
    field_then_nests(to_syscall_nr, ",\"kind\":"@, event.kind as int, from_ret(event));
    field_then_nests(to_tid, ",\"syscall_nr\":"@, event.syscall_nr as int, from_kind(event));
    field_then_nests(to_pid, ",\"tid\":"@, event.tid as int, from_syscall_nr(event));
    field_then_nests(to_timestamp, ",\"pid\":"@, event.pid as int, from_tid(event));
    assert(to_timestamp + from_pid(event) =~= from_timestamp(event));
}

/// What follows a number in the object is no part of a number.
proof fn rests_start_after_numbers(event: SyscallEvent)
    ensures
        "}"@.len() > 0,
        !is_number_char("}"@[0]),
        from_ret(event).len() > 0,
        !is_number_char(from_ret(event)[0]),
        from_kind(event).len() > 0,
        !is_number_char(from_kind(event)[0]),
        from_syscall_nr(event).len() > 0,
        !is_number_char(from_syscall_nr(event)[0]),
        from_tid(event).len() > 0,
        !is_number_char(from_tid(event)[0]),
        from_pid(event).len() > 0,
        !is_number_char(from_pid(event)[0]),
{
    reveal_strlit(",\"ret\":");
    reveal_strlit(",\"kind\":");
    reveal_strlit(",\"syscall_nr\":");
    reveal_strlit(",\"tid\":");
    reveal_strlit(",\"pid\":");
    reveal_strlit("}");
}

/// Equal fields under one label have equal values and equal continuations.
proof fn field_then_injective(
    label: Seq<char>,
    a: int,
    rest_a: Seq<char>,
    b: int,
    rest_b: Seq<char>,
)
    requires
        field_then(label, a, rest_a) == field_then(label, b, rest_b),
        rest_a.len() > 0,
        rest_b.len() > 0,
        !is_number_char(rest_a[0]),
        !is_number_char(rest_b[0]),
    ensures
        a == b,
        rest_a == rest_b,
{
    let n = label.len() as int;
    assert(field_then(label, a, rest_a).skip(n) =~= integer_text(a) + rest_a);
    assert(field_then(label, b, rest_b).skip(n) =~= integer_text(b) + rest_b);
    number_then_rest(a, rest_a, b, rest_b);
}

/// The JSON object of an event tells every field of it but the padding, and
/// tells nothing of the padding.
pub proof fn object_text_is_faithful(a: SyscallEvent, b: SyscallEvent)
    ensures
        object_text(a) == object_text(b) <==> {
            &&& a.timestamp_ns == b.timestamp_ns
            &&& a.pid == b.pid
            &&& a.tid == b.tid
            &&& a.syscall_nr == b.syscall_nr
            &&& a.kind == b.kind
            &&& a.ret == b.ret
        },
{
    if object_text(a) == object_text(b) {
        object_text_nests(a);
        object_text_nests(b);
        rests_start_after_numbers(a);
        rests_start_after_numbers(b);
        field_then_injective(
            "{\"timestamp_ns\":"@,
            a.timestamp_ns as int,
            from_pid(a),
            b.timestamp_ns as int,
            from_pid(b),
        );
        field_then_injective(",\"pid\":"@, a.pid as int, from_tid(a), b.pid as int, from_tid(b));
        field_then_injective(
            ",\"tid\":"@,
            a.tid as int,
            from_syscall_nr(a),
            b.tid as int,
            from_syscall_nr(b),
        );
        field_then_injective(
            ",\"syscall_nr\":"@,
            a.syscall_nr as int,
            from_kind(a),
            b.syscall_nr as int,
            from_kind(b),
        );
        field_then_injective(",\"kind\":"@, a.kind as int, from_ret(a), b.kind as int, from_ret(b));
        field_then_injective(",\"ret\":"@, a.ret as int, "}"@, b.ret as int, "}"@);
    }
}

/// The JSON object of an event holds no line end: an object per line is a line
/// per object.
pub proof fn object_text_is_one_line(event: SyscallEvent)
    ensures
        !object_text(event).contains('\n'),
{
    reveal_strlit("{\"timestamp_ns\":");
    reveal_strlit(",\"pid\":");
    reveal_strlit(",\"tid\":");
    reveal_strlit(",\"syscall_nr\":");
    reveal_strlit(",\"kind\":");
    reveal_strlit(",\"ret\":");
    reveal_strlit("}");
    integer_text_chars(event.timestamp_ns as int);
    integer_text_chars(event.pid as int);
    integer_text_chars(event.tid as int);
    integer_text_chars(event.syscall_nr as int);
    integer_text_chars(event.kind as int);
    integer_text_chars(event.ret as int);
}

/// The text of a natural number is a row of digits without leading zeros, and stands
/// for that number.
proof fn natural_text_reads(n: nat)
    ensures
        is_natural(natural_text(n)),
        digits_value(natural_text(n)) == n,
        n > 0 ==> natural_text(n)[0] != '0',
    decreases n,
{
    let text = natural_text(n);
    natural_text_chars(n);
    if n < 10 {
        assert(text.drop_last() =~= Seq::<char>::empty());
        assert(digits_value(text.drop_last()) == 0);
    } else {
        natural_text_reads(n / 10);
        natural_text_chars(n / 10);
        assert(text.drop_last() =~= natural_text(n / 10));
        assert(text[0] == natural_text(n / 10)[0]);
    }
}

/// The text of an integer is a decimal integer, and stands for that number.
pub proof fn integer_text_reads(n: int)
    ensures
        is_integer(integer_text(n)),
        integer_value(integer_text(n)) == n,
{
    if n < 0 {
        natural_text_reads((-n) as nat);
        assert(integer_text(n).drop_first() =~= natural_text((-n) as nat));
    } else {
        natural_text_reads(n as nat);
        assert('0' <= natural_text(n as nat)[0]);
    }
}

/// Reading a field of the object, behind the character in front of it.
proof fn field_reads(label: Seq<char>, name: Seq<char>, value: int, rest: Seq<char>)
    requires
        label.len() > 0,
        label.skip(1) =~= seq!['"'] + name + seq!['"', ':'],
        forall|i: int| 0 <= i < name.len() ==> #[trigger] name[i] != '"',
        rest.len() > 0,
        rest[0] == ',' || rest =~= seq!['}'],
    ensures
        read_members(field_then(label, value, rest).skip(1)) == if rest[0] == '}' {
            Some(seq![(name, value)])
        } else {
            match read_members(rest.skip(1)) {
                Some(members) => Some(seq![(name, value)] + members),
                None => None,
            }
        },
{
    integer_text_reads(value);
    read_one_member(name, integer_text(value), rest);
    assert(field_then(label, value, rest).skip(1) =~= seq!['"'] + name + seq!['"', ':']
        + integer_text(value) + rest);
}

/// Reading the JSON object of an event gives its fields back: the members are these
/// six, in this order, and the value of each is that of the field of its name.
pub proof fn object_text_reads_back(event: SyscallEvent)
    ensures
        read_object(object_text(event)) == Some(seq![
            ("timestamp_ns"@, event.timestamp_ns as int),
            ("pid"@, event.pid as int),
            ("tid"@, event.tid as int),
            ("syscall_nr"@, event.syscall_nr as int),
            ("kind"@, event.kind as int),
            ("ret"@, event.ret as int),
        ]),
{
    object_text_nests(event);
    reveal_strlit("{\"timestamp_ns\":");
    reveal_strlit("timestamp_ns");
    reveal_strlit(",\"pid\":");
    reveal_strlit("pid");
    reveal_strlit(",\"tid\":");
    reveal_strlit("tid");
    reveal_strlit(",\"syscall_nr\":");
    reveal_strlit("syscall_nr");
    reveal_strlit(",\"kind\":");
    reveal_strlit("kind");
    reveal_strlit(",\"ret\":");
    reveal_strlit("ret");
    reveal_strlit("}");
    field_reads(",\"ret\":"@, "ret"@, event.ret as int, "}"@);
    field_reads(",\"kind\":"@, "kind"@, event.kind as int, from_ret(event));
    field_reads(",\"syscall_nr\":"@, "syscall_nr"@, event.syscall_nr as int, from_kind(event));
    field_reads(",\"tid\":"@, "tid"@, event.tid as int, from_syscall_nr(event));
    field_reads(",\"pid\":"@, "pid"@, event.pid as int, from_tid(event));
    field_reads("{\"timestamp_ns\":"@, "timestamp_ns"@, event.timestamp_ns as int, from_pid(event));
    assert(read_object(object_text(event)).unwrap() =~= seq![
            ("timestamp_ns"@, event.timestamp_ns as int),
            ("pid"@, event.pid as int),
            ("tid"@, event.tid as int),
            ("syscall_nr"@, event.syscall_nr as int),
            ("kind"@, event.kind as int),
            ("ret"@, event.ret as int),
    ]);
}

} // verus!
