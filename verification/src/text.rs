//! Decimal numerals and the order of strings.
use vstd::prelude::*;

verus! {

/// `String::from` on a `&str` gives a string with the same characters.
pub assume_specification<'a>[ <String as From<&'a str>>::from ](s: &str) -> (r: String)
    ensures
        r@ == s@,
;

/// Converting a value to its own type, with std's `From<T> for T`, gives it back unchanged.
pub assume_specification<Same>[ <Same as From<Same>>::from ](value: Same) -> (r: Same)
    ensures
        r == value,
;

/// The decimal digit of `d`.
pub open spec fn digit(d: nat) -> char
    recommends
        d < 10,
{
    (48 + d) as char
}

/// The decimal numeral of `n`, without leading zeros.
pub open spec fn decimal(n: nat) -> Seq<char>
    decreases n,
{
    if n < 10 {
        seq![digit(n)]
    } else {
        decimal(n / 10).push(digit(n % 10))
    }
}

/// The decimal numeral of `n`, with a minus sign in front of a negative one.
pub open spec fn signed_decimal(n: int) -> Seq<char> {
    if n < 0 {
        seq!['-'] + decimal((-n) as nat)
    } else {
        decimal(n as nat)
    }
}

/// An optional number as it is written in error texts: `None`, or `Some(n)`.
pub open spec fn option_text(n: Option<i32>) -> Seq<char> {
    match n {
        Some(n) => "Some("@ + signed_decimal(n as int) + ")"@,
        None => "None"@,
    }
}

fn digit_str(d: u32) -> (r: &'static str)
    requires
        d < 10,
    ensures
        r@ == seq![digit(d as nat)],
{
    proof {
        reveal_strlit("0");
        reveal_strlit("1");
        reveal_strlit("2");
        reveal_strlit("3");
        reveal_strlit("4");
        reveal_strlit("5");
        reveal_strlit("6");
        reveal_strlit("7");
        reveal_strlit("8");
        reveal_strlit("9");
    }
    let r: &'static str = match d {
        0 => "0",
        1 => "1",
        2 => "2",
        3 => "3",
        4 => "4",
        5 => "5",
        6 => "6",
        7 => "7",
        8 => "8",
        _ => "9",
    };
    assert(r@ =~= seq![digit(d as nat)]);
    r
}

/// Writes `n` in decimal.
pub fn decimal_string(n: u32) -> (r: String)
    ensures
        r@ == decimal(n as nat),
    decreases n,
{
    if n < 10 {
        digit_str(n).to_owned()
    } else {
        let mut r = decimal_string(n / 10);
        r.append(digit_str(n % 10));
        assert(r@ =~= decimal(n as nat));
        r
    }
}

/// Writes `n` in decimal, with its sign.
pub fn signed_decimal_string(n: i32) -> (r: String)
    ensures
        r@ == signed_decimal(n as int),
{
    if n < 0 {
        let magnitude: u32 = (-(n as i64)) as u32;
        proof {
            reveal_strlit("-");
        }
        assert("-"@ =~= seq!['-']);
        let minus: String = "-".to_owned();
        minus.concat(decimal_string(magnitude).as_str())
    } else {
        decimal_string(n as u32)
    }
}

/// Writes an optional number as error texts do.
pub fn option_text_string(n: Option<i32>) -> (r: String)
    ensures
        r@ == option_text(n),
{
    match n {
        Some(n) => {
            let open: String = "Some(".to_owned();
            open.concat(signed_decimal_string(n).as_str()).concat(")")
        },
        None => "None".to_owned(),
    }
}

/// Strings in the order of their first differing character; a proper prefix comes first.
pub open spec fn text_less(a: Seq<char>, b: Seq<char>) -> bool
    decreases a.len(),
{
    if b.len() == 0 {
        false
    } else if a.len() == 0 {
        true
    } else if a[0] == b[0] {
        text_less(a.drop_first(), b.drop_first())
    } else {
        a[0] < b[0]
    }
}

/// Whether `a` comes before `b` in the order of strings.
pub fn is_text_less(a: &str, b: &str) -> (r: bool)
    ensures
        r == text_less(a@, b@),
{
    let mut x = a.chars();
    let mut y = b.chars();
    loop
        invariant
            text_less(a@, b@) == text_less(
                vstd::std_specs::iter::IteratorSpec::remaining(&x),
                vstd::std_specs::iter::IteratorSpec::remaining(&y),
            ),
            vstd::std_specs::iter::IteratorSpec::decrease(&x) is Some,
        decreases vstd::std_specs::iter::IteratorSpec::decrease(&x)->0,
    {
        let p = x.next();
        let q = y.next();
        match (p, q) {
            (_, None) => {
                return false;
            },
            (None, Some(_)) => {
                return true;
            },
            (Some(c), Some(d)) => {
                if c != d {
                    return c < d;
                }
            },
        }
    }
}

/// Of two different strings exactly one comes before the other; none comes before itself.
pub proof fn text_order_is_total(a: Seq<char>, b: Seq<char>)
    ensures
        !(text_less(a, b) && text_less(b, a)),
        a != b ==> text_less(a, b) || text_less(b, a),
        a == b ==> !text_less(a, b),
    decreases a.len(),
{
    if a.len() > 0 && b.len() > 0 && a[0] == b[0] {
        text_order_is_total(a.drop_first(), b.drop_first());
        if a.drop_first() == b.drop_first() {
            assert(a =~= seq![a[0]] + a.drop_first());
            assert(b =~= seq![b[0]] + b.drop_first());
        }
    } else if a.len() == 0 && b.len() == 0 {
        assert(a =~= b);
    }
}

/// The order of strings is transitive.
pub proof fn text_order_is_transitive(a: Seq<char>, b: Seq<char>, c: Seq<char>)
    requires
        text_less(a, b),
        text_less(b, c),
    ensures
        text_less(a, c),
    decreases a.len(),
{
    if a.len() > 0 && a[0] == b[0] && b[0] == c[0] {
        text_order_is_transitive(a.drop_first(), b.drop_first(), c.drop_first());
    }
}

/// Different numbers have different numerals.
pub proof fn decimal_is_injective(m: nat, n: nat)
    requires
        decimal(m) == decimal(n),
    ensures
        m == n,
    decreases m,
{
    assert(decimal(m).last() == digit(m % 10)) by {
        if m < 10 {
            assert(m % 10 == m);
        }
    }
    assert(decimal(n).last() == digit(n % 10)) by {
        if n < 10 {
            assert(n % 10 == n);
        }
    }
    assert(m % 10 == n % 10);
    decimal_is_not_empty(m / 10);
    decimal_is_not_empty(n / 10);
    if m >= 10 && n >= 10 {
        assert(decimal(m).drop_last() =~= decimal(m / 10));
        assert(decimal(n).drop_last() =~= decimal(n / 10));
        decimal_is_injective(m / 10, n / 10);
    }
}

proof fn decimal_is_not_empty(n: nat)
    ensures
        decimal(n).len() > 0,
{
}

/// The number that a text of decimal digits stands for.
pub open spec fn number(text: Seq<char>) -> int
    decreases text.len(),
{
    if text.len() == 0 {
        0
    } else {
        number(text.drop_last()) * 10 + (text.last() as int - 48)
    }
}

/// The numeral of a number reads as that number, holds nothing but digits, and begins with a zero
/// only if it is the numeral of zero.
pub proof fn numerals_read_back(n: nat)
    ensures
        number(decimal(n)) == n,
        decimal(n).len() > 0,
        forall|i: int| 0 <= i < decimal(n).len() ==> '0' <= #[trigger] decimal(n)[i] <= '9',
        decimal(n)[0] == '0' ==> n == 0,
    decreases n,
{
    if n < 10 {
        let one = seq![digit(n)];
        assert(one.drop_last() =~= seq![]);
        assert(number(seq![]) == 0);
    } else {
        numerals_read_back(n / 10);
        let d = decimal(n);
        assert(d.drop_last() =~= decimal(n / 10));
        assert(d.last() == digit(n % 10));
        assert(d[0] == decimal(n / 10)[0]);
        assert forall|i: int| 0 <= i < d.len() implies '0' <= #[trigger] d[i] <= '9' by {
            if i < d.len() - 1 {
                assert(d[i] == decimal(n / 10)[i]);
            }
        }
    }
}

/// A negative number has a minus sign in front of the numeral of its size; any other has none.
pub proof fn signs_are_written(n: int)
    ensures
        n >= 0 ==> signed_decimal(n) == decimal(n as nat),
        n < 0 ==> signed_decimal(n).len() > 0 && signed_decimal(n)[0] == '-' && signed_decimal(
            n,
        ).drop_first() == decimal((-n) as nat),
{
    if n < 0 {
        assert(signed_decimal(n).drop_first() =~= decimal((-n) as nat));
    }
}

/// One text comes before another exactly if it is smaller at the first place at which they differ,
/// or ends there.
pub proof fn first_difference_decides(a: Seq<char>, b: Seq<char>, k: int)
    requires
        0 <= k <= a.len(),
        k <= b.len(),
        forall|i: int| 0 <= i < k ==> #[trigger] a[i] == b[i],
        k < a.len() && k < b.len() ==> a[k] != b[k],
    ensures
        k < a.len() && k < b.len() ==> (text_less(a, b) <==> a[k] < b[k]),
        k == a.len() ==> (text_less(a, b) <==> k < b.len()),
        k == b.len() ==> !text_less(a, b),
    decreases k,
{
    if k > 0 {
        let x = a.drop_first();
        let y = b.drop_first();
        assert(a[0] == b[0]);
        assert forall|i: int| 0 <= i < k - 1 implies #[trigger] x[i] == y[i] by {
            assert(a[i + 1] == b[i + 1]);
        }
        first_difference_decides(x, y, k - 1);
    }
}

} // verus!
