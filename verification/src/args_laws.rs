//! What a user may write on the command line, told by the characters.
use crate::args;
use crate::args::NumVhciPorts;
use vstd::prelude::*;

verus! {

/// A digit more makes a number ten times as large and adds the digit; a plus sign in front adds nothing.
pub proof fn law_digits(s: Seq<char>, c: char)
    ensures
        args::digits_value(Seq::<char>::empty()) == 0,
        '0' <= c <= '9' ==> args::digits_value(s.push(c)) == 10 * args::digits_value(s) + (c as u32
            - 48),
        args::number_value(seq!['+'] + s) == args::digits_value(s),
        s.len() > 0 && s[0] != '+' ==> args::number_value(s) == args::digits_value(s),
{
    assert(s.push(c).drop_last() =~= s);
    assert((seq!['+'] + s).drop_first() =~= s);
}

/// A text is a number where it is digits and nothing else, at least one, with a plus sign in front at most;
/// a byte where the number is at most 255.
pub proof fn law_numbers(s: Seq<char>, c: char)
    ensures
        !args::is_number(Seq::<char>::empty()),
        !args::is_number(seq!['+']),
        '0' <= c <= '9' ==> args::is_number(seq![c]) && args::is_number(seq!['+', c]),
        args::is_number(s) && '0' <= c <= '9' ==> args::is_number(s.push(c)),
        s.len() > 0 && !('0' <= c <= '9') ==> !args::is_number(s.push(c)),
        args::is_byte(s) <==> args::is_number(s) && args::number_value(s) < 256,
{
    let e = Seq::<char>::empty();
    assert(seq!['+'].drop_first() =~= e);
    assert(seq!['+', c].drop_first() =~= seq![c]);
    if s.len() > 0 {
        if s[0] == '+' {
            assert(s.push(c).drop_first() =~= s.drop_first().push(c));
        }
        let u = args::unsigned_part(s);
        let v = args::unsigned_part(s.push(c));
        assert(v =~= u.push(c));
        if args::is_number(s) && '0' <= c <= '9' {
            assert forall|i: int| 0 <= i < v.len() implies '0' <= #[trigger] v[i] <= '9' by {
                if i < u.len() {
                    assert(v[i] == u[i]);
                }
            }
        }
        assert(v[u.len() as int] == c);
    }
}

/// Only spaces stand before `i` and from `j` on.
pub open spec fn only_spaces_outside(s: Seq<char>, i: int, j: int) -> bool {
    &&& forall|k: int| 0 <= k < i ==> #[trigger] args::is_space(s[k])
    &&& forall|k: int| j <= k < s.len() ==> #[trigger] args::is_space(s[k])
}

/// Trimming takes spaces off both ends until there are none, and nothing else. Gives where what is left
/// begins and ends.
pub proof fn law_trimmed(s: Seq<char>) -> (r: (int, int))
    ensures
        0 <= r.0 <= r.1 <= s.len(),
        args::trimmed(s) == s.subrange(r.0, r.1),
        only_spaces_outside(s, r.0, r.1),
        r.0 < r.1 ==> !args::is_space(s[r.0]) && !args::is_space(s[r.1 - 1]),
    decreases s.len(),
{
    if s.len() == 0 {
        assert(s.subrange(0, 0) =~= s);
        (0, 0)
    } else if args::is_space(s[0]) {
        let t = s.drop_first();
        let (i, j) = law_trimmed(t);
        lemma_one_more_in_front(s, i, j);
        (i + 1, j + 1)
    } else if args::is_space(s.last()) {
        let t = s.drop_last();
        let (i, j) = law_trimmed(t);
        lemma_one_more_behind(s, i, j);
        (i, j)
    } else {
        assert(s.subrange(0, s.len() as int) =~= s);
        (0, s.len() as int)
    }
}

proof fn lemma_one_more_in_front(s: Seq<char>, i: int, j: int)
    requires
        s.len() > 0,
        args::is_space(s[0]),
        0 <= i <= j <= s.len() - 1,
        only_spaces_outside(s.drop_first(), i, j),
    ensures
        only_spaces_outside(s, i + 1, j + 1),
        s.subrange(i + 1, j + 1) == s.drop_first().subrange(i, j),
{
    let t = s.drop_first();
    assert(s.subrange(i + 1, j + 1) =~= t.subrange(i, j));
    assert forall|k: int| 0 <= k < i + 1 implies #[trigger] args::is_space(s[k]) by {
        if k > 0 {
            assert(args::is_space(t[k - 1]));
        }
    }
    assert forall|k: int| j + 1 <= k < s.len() implies #[trigger] args::is_space(s[k]) by {
        assert(args::is_space(t[k - 1]));
    }
}

proof fn lemma_one_more_behind(s: Seq<char>, i: int, j: int)
    requires
        s.len() > 0,
        args::is_space(s.last()),
        0 <= i <= j <= s.len() - 1,
        only_spaces_outside(s.drop_last(), i, j),
    ensures
        only_spaces_outside(s, i, j),
        s.subrange(i, j) == s.drop_last().subrange(i, j),
{
    let t = s.drop_last();
    assert(s.subrange(i, j) =~= t.subrange(i, j));
    assert forall|k: int| 0 <= k < i implies #[trigger] args::is_space(s[k]) by {
        assert(args::is_space(t[k]));
    }
    assert forall|k: int| j <= k < s.len() implies #[trigger] args::is_space(s[k]) by {
        if k < t.len() {
            assert(args::is_space(t[k]));
        }
    }
}

/// Of the ASCII characters the space and those from tab to carriage return are room between words.
pub proof fn law_spaces(c: char)
    requires
        (c as u32) < 128,
    ensures
        args::is_space(c) <==> c == ' ' || 9 <= c as u32 <= 13,
{
}

/// A text with a colon names the bus before its first colon and the device after it.
pub proof fn law_bus_and_device(bus: Seq<char>, dev: Seq<char>)
    requires
        !bus.contains(':'),
    ensures
        args::bus_part(bus + seq![':'] + dev) == bus,
        args::dev_part(bus + seq![':'] + dev) == dev,
        (bus + seq![':'] + dev).contains(':'),
{
    let s = bus + seq![':'] + dev;
    assert(s[bus.len() as int] == ':');
    assert(s.contains(':'));
    s.index_of_first_ensures(':');
    let at = s.index_of_first(':')->0;
    assert(forall|i: int| 0 <= i < bus.len() ==> s[i] == bus[i]);
    if at < bus.len() {
        assert(bus[at] == ':');
        assert(bus.contains(':'));
    }
    assert(at == bus.len());
    assert(s.take(at) =~= bus);
    assert(s.skip(at + 1) =~= dev);
}

/// There are from one to thirty-one ports.
pub proof fn law_number_of_ports(n: NumVhciPorts)
    ensures
        n.wf() <==> n.0 > 0 && n.0 < 32,
{
}

} // verus!
