//! Plain-text replies of the service.
use vstd::prelude::*;

verus! {

/// The reply to a posted company record: its name as the key and its total
/// revenue as the value.
pub fn post_params_reply(company_name: &str, total_revenue: &str) -> (reply: String)
    ensures
        reply@ == "POST returns key: "@ + company_name@ + ", value: "@ + total_revenue@,
{
    let mut reply = String::from_str("POST returns key: ");
    reply.append(company_name);
    reply.append(", value: ");
    reply.append(total_revenue);
    reply
}

} // verus!

verus! {

/// The decimal digit of `d` (0 to 9).
pub open spec fn digit_char(d: nat) -> char {
    (('0' as nat) + d) as char
}

/// The decimal numeral of `n`, without leading zeros.
pub open spec fn decimal(n: nat) -> Seq<char>
    decreases n,
{
    if n < 10 {
        seq![digit_char(n)]
    } else {
        decimal(n / 10).push(digit_char(n % 10))
    }
}

/// The one-character text of the digit `d`.
fn digit_text(d: u32) -> (text: &'static str)
    requires
        d < 10,
    ensures
        text@ == seq![digit_char(d as nat)],
{
    proof {
        reveal_strlit("0");
        reveal_strlit("1");
        reveal_strlit("2");
        reveal_strlit("3");
        reveal_strlit("4");
        reveal_strlit("5");
        reveal_strlit("6");
        reveal_strlit("7");
        reveal_strlit("8");
        reveal_strlit("9");
    }
    let text = if d == 0 {
        "0"
    } else if d == 1 {
        "1"
    } else if d == 2 {
        "2"
    } else if d == 3 {
        "3"
    } else if d == 4 {
        "4"
    } else if d == 5 {
        "5"
    } else if d == 6 {
        "6"
    } else if d == 7 {
        "7"
    } else if d == 8 {
        "8"
    } else {
        "9"
    };
    assert(text@ =~= seq![digit_char(d as nat)]);
    text
}

/// Appends the decimal numeral of `n` to `text`.
fn append_decimal(text: &mut String, n: u32)
    ensures
        final(text)@ == old(text)@ + decimal(n as nat),
    decreases n,
{
    if n < 10 {
        text.append(digit_text(n));
    } else {
        append_decimal(text, n / 10);
        text.append(digit_text(n % 10));
        assert(old(text)@ + decimal((n / 10) as nat) + seq![digit_char((n % 10) as nat)] =~= old(
            text,
        )@ + decimal(n as nat));
    }
}

/// The greeting for a number taken from the request path.
pub fn extract_url_reply(value: u32) -> (reply: String)
    ensures
        reply@ == "Hello, world name: "@ + decimal(value as nat) + "! umya-spreadsheet compiled!"@,
{
    let mut reply = String::from_str("Hello, world name: ");
    append_decimal(&mut reply, value);
    reply.append("! umya-spreadsheet compiled!");
    reply
}

} // verus!

verus! {

/// The number that a numeral of decimal digits stands for.
pub open spec fn numeral_value(s: Seq<char>) -> nat
    decreases s.len(),
{
    if s.len() == 0 {
        0
    } else {
        numeral_value(s.drop_last()) * 10 + ((s.last() as int) - ('0' as int)) as nat
    }
}

/// The decimal numeral of a number is standard base-10 text: it is made of
/// the digits '0' to '9', has no leading zero (but for zero itself), and
/// reads back as the number.
pub proof fn lemma_decimal_reads_back(n: nat)
    ensures
        decimal(n).len() >= 1,
        forall|i: int| 0 <= i < decimal(n).len() ==> '0' <= #[trigger] decimal(n)[i] <= '9',
        decimal(n)[0] != '0' || n == 0,
        numeral_value(decimal(n)) == n,
    decreases n,
{
    if n < 10 {
        assert(digit_char(n) as int == ('0' as int) + n);
        assert(decimal(n) == seq![digit_char(n)]);
        assert(seq![digit_char(n)].drop_last() =~= Seq::<char>::empty());
        assert(numeral_value(Seq::<char>::empty()) == 0);
        assert(numeral_value(seq![digit_char(n)]) == numeral_value(Seq::<char>::empty()) * 10 + ((
        digit_char(n) as int) - ('0' as int)) as nat);
    } else {
        lemma_decimal_reads_back(n / 10);
        let prefix = decimal(n / 10);
        assert(decimal(n) == prefix.push(digit_char(n % 10)));
        assert(prefix.push(digit_char(n % 10)).drop_last() =~= prefix);
        assert(n == (n / 10) * 10 + n % 10);
        assert(digit_char(n % 10) as int == ('0' as int) + n % 10);
        let whole = prefix.push(digit_char(n % 10));
        assert(whole.last() == digit_char(n % 10));
        assert(numeral_value(whole) == numeral_value(prefix) * 10 + ((digit_char(n % 10) as int) - (
        '0' as int)) as nat);
        assert(numeral_value(prefix) * 10 + (n % 10) == n);
        assert(prefix[0] != '0') by {
            assert(n / 10 != 0);
        }
    }
}

} // verus!
