//! The ASCII command set spoken with the HM7044: the queries the driver sends
//! and the check of the answer that confirms a channel selection.

use vstd::prelude::*;
use crate::error::{ErrorView, Hm7044Error};

verus! {

/// USB vendor id of the instrument's serial adapter.
pub const DEVICE_VENDOR_ID: u16 = 0x0416;

/// USB product id of the instrument's serial adapter.
pub const DEVICE_PRODUCT_ID: u16 = 0x5011;

/// Baud rate of the serial link.
pub const DEVICE_SERIAL_BAUDRATE: u32 = 9600;

/// Byte that ends every answer of the instrument.
pub const END_OF_LINE: u8 = 0x0d;

/// Number of output channels of the HM7044.
pub const CHANNEL_COUNT: usize = 4;

/// The character of a decimal digit `d`, for `0 <= d < 10`.
pub open spec fn digit_char(d: int) -> char {
    seq!['0', '1', '2', '3', '4', '5', '6', '7', '8', '9'][d]
}

/// The decimal rendering of `n`, without sign or leading zeros.
pub open spec fn decimal(n: nat) -> Seq<char>
    decreases n,
{
    if n < 10 {
        seq![digit_char(n as int)]
    } else {
        decimal(n / 10).push(digit_char((n % 10) as int))
    }
}

/// The query for the identity string.
pub open spec fn identity_query_text() -> Seq<char> {
    seq!['I', 'D', 'N', '?']
}

/// The query for the measured values and output states of all channels.
pub open spec fn read_query_text() -> Seq<char> {
    seq!['R', 'E', 'A', 'D']
}

/// The command that selects channel `channel` (counted from 0); the
/// instrument counts channels from 1.
pub open spec fn select_command_text(channel: nat) -> Seq<char> {
    seq!['S', 'E', 'L', ' '] + decimal(channel + 1) + seq!['\r']
}

/// The answer by which the instrument confirms the selection of `channel`.
pub open spec fn select_answer_text(channel: nat) -> Seq<char> {
    seq!['c', 'h', 'a', 'n', 'n', 'e', 'l', ' '] + decimal(channel + 1) + seq![
        ' ',
        's',
        'e',
        'l',
        'e',
        'c',
        't',
        'e',
        'd',
        '\r',
    ]
}

proof fn lemma_digit_char_injective(a: int, b: int)
    requires
        0 <= a < 10,
        0 <= b < 10,
        digit_char(a) == digit_char(b),
    ensures
        a == b,
{
    let ds = seq!['0', '1', '2', '3', '4', '5', '6', '7', '8', '9'];
    assert(ds[0] == '0' && ds[1] == '1' && ds[2] == '2' && ds[3] == '3' && ds[4] == '4');
    assert(ds[5] == '5' && ds[6] == '6' && ds[7] == '7' && ds[8] == '8' && ds[9] == '9');
}

proof fn lemma_decimal_len(n: nat)
    ensures
        decimal(n).len() >= 1,
        n >= 10 ==> decimal(n).len() >= 2,
        n < 10 ==> decimal(n).len() == 1,
    decreases n,
{
    if n >= 10 {
        lemma_decimal_len(n / 10);
    }
}

/// Different numbers have different decimal renderings.
pub proof fn lemma_decimal_injective(a: nat, b: nat)
    requires
        decimal(a) == decimal(b),
    ensures
        a == b,
    decreases a,
{
    lemma_decimal_len(a);
    lemma_decimal_len(b);
    if a < 10 && b < 10 {
        assert(decimal(a)[0] == digit_char(a as int));
        assert(decimal(b)[0] == digit_char(b as int));
        lemma_digit_char_injective(a as int, b as int);
    } else if a >= 10 && b >= 10 {
        let da = decimal(a);
        let db = decimal(b);
        assert(da.last() == digit_char((a % 10) as int));
        assert(db.last() == digit_char((b % 10) as int));
        lemma_digit_char_injective((a % 10) as int, (b % 10) as int);
        assert(da.drop_last() == decimal(a / 10));
        assert(db.drop_last() == decimal(b / 10));
        lemma_decimal_injective(a / 10, b / 10);
    }
}

/// The confirmation of one channel's selection is not that of any other
/// channel, so an answer is accepted for one channel at most.
pub proof fn lemma_select_answers_distinct(a: nat, b: nat)
    requires
        a != b,
    ensures
        select_answer_text(a) != select_answer_text(b),
{
    let pre = seq!['c', 'h', 'a', 'n', 'n', 'e', 'l', ' '];
    let post = seq![' ', 's', 'e', 'l', 'e', 'c', 't', 'e', 'd', '\r'];
    let ta = select_answer_text(a);
    let tb = select_answer_text(b);
    if ta == tb {
        let da = decimal(a + 1);
        let db = decimal(b + 1);
        assert(ta == pre + da + post);
        assert(tb == pre + db + post);
        assert(da.len() == db.len());
        assert(ta.subrange(8, (8 + da.len()) as int) =~= da);
        assert(tb.subrange(8, (8 + db.len()) as int) =~= db);
        lemma_decimal_injective(a + 1, b + 1);
    }
}

/// The selection command and the confirmation of a channel name the same
/// channel number, counted from 1.
pub proof fn lemma_select_command_matches_answer(channel: nat)
    ensures
        select_command_text(channel).subrange(4, (4 + decimal(channel + 1).len()) as int) == decimal(
            channel + 1,
        ),
        select_answer_text(channel).subrange(8, (8 + decimal(channel + 1).len()) as int) == decimal(
            channel + 1,
        ),
{
    let d = decimal(channel + 1);
    assert(select_command_text(channel).subrange(4, (4 + d.len()) as int) =~= d);
    assert(select_answer_text(channel).subrange(8, (8 + d.len()) as int) =~= d);
}

/// The number that a string of decimal digits stands for.
pub open spec fn digits_value(s: Seq<char>) -> nat
    decreases s.len(),
{
    if s.len() == 0 {
        0
    } else {
        (digits_value(s.drop_last()) * 10 + ((s.last() as int) - ('0' as int))) as nat
    }
}

proof fn lemma_digit_char_value(d: int)
    requires
        0 <= d < 10,
    ensures
        (digit_char(d) as int) == ('0' as int) + d,
        '0' <= digit_char(d) <= '9',
{
    let ds = seq!['0', '1', '2', '3', '4', '5', '6', '7', '8', '9'];
    assert(ds[0] == '0' && ds[1] == '1' && ds[2] == '2' && ds[3] == '3' && ds[4] == '4');
    assert(ds[5] == '5' && ds[6] == '6' && ds[7] == '7' && ds[8] == '8' && ds[9] == '9');
}

/// The decimal rendering of `n` is made of digits, stands for `n`, and has
/// no leading zero.
pub proof fn lemma_decimal_value(n: nat)
    ensures
        decimal(n).len() >= 1,
        forall|i: int| 0 <= i < decimal(n).len() ==> '0' <= #[trigger] decimal(n)[i] <= '9',
        digits_value(decimal(n)) == n,
        decimal(n).len() > 1 ==> decimal(n)[0] != '0',
    decreases n,
{
    lemma_digit_char_value((n % 10) as int);
    lemma_decimal_len(n);
    if n >= 10 {
        lemma_decimal_value(n / 10);
        let d = decimal(n);
        let p = decimal(n / 10);
        assert(d == p.push(digit_char((n % 10) as int)));
        assert(d.drop_last() =~= p);
        assert(d.last() == digit_char((n % 10) as int));
        assert((n / 10) * 10 + n % 10 == n) by (nonlinear_arith);
        assert(digits_value(d) == digits_value(p) * 10 + ((d.last() as int) - ('0' as int)));
        assert forall|i: int| 0 <= i < d.len() implies '0' <= #[trigger] d[i] <= '9' by {
            if i < p.len() {
                assert(d[i] == p[i]);
            }
        }
        assert(d[0] == p[0]);
        lemma_decimal_len(n / 10);
        if p.len() == 1 {
            assert(n / 10 < 10);
            lemma_digit_char_value((n / 10) as int);
            assert(p[0] == digit_char((n / 10) as int));
        }
    } else {
        let d = decimal(n);
        assert(d.drop_last() =~= Seq::<char>::empty());
        assert(d.last() == digit_char(n as int));
        assert(digits_value(d) == digits_value(d.drop_last()) * 10 + ((d.last() as int) - ('0' as int)));
    }
}

/// The selection command of `channel` is `SEL `, then the decimal digits of
/// the channel counted from 1, then a carriage return.
pub proof fn lemma_select_command_shape(channel: nat)
    ensures
        select_command_text(channel).len() >= 6,
        select_command_text(channel).take(4) == seq!['S', 'E', 'L', ' '],
        select_command_text(channel).last() == '\r',
        forall|i: int|
            4 <= i < select_command_text(channel).len() - 1 ==> '0' <= #[trigger] select_command_text(
                channel,
            )[i] <= '9',
        digits_value(
            select_command_text(channel).subrange(4, select_command_text(channel).len() - 1),
        ) == channel + 1,
{
    let t = select_command_text(channel);
    let d = decimal(channel + 1);
    lemma_decimal_value(channel + 1);
    assert(t.take(4) =~= seq!['S', 'E', 'L', ' ']);
    assert(t.subrange(4, t.len() - 1) =~= d);
    assert forall|i: int| 4 <= i < t.len() - 1 implies '0' <= #[trigger] t[i] <= '9' by {
        assert(t[i] == d[i - 4]);
    }
}

/// The confirmation of `channel` is `channel `, then the decimal digits of the
/// channel counted from 1, then ` selected` and a carriage return.
pub proof fn lemma_select_answer_shape(channel: nat)
    ensures
        select_answer_text(channel).len() >= 19,
        select_answer_text(channel).take(8) == seq!['c', 'h', 'a', 'n', 'n', 'e', 'l', ' '],
        select_answer_text(channel).skip(select_answer_text(channel).len() - 10) == seq![
            ' ',
            's',
            'e',
            'l',
            'e',
            'c',
            't',
            'e',
            'd',
            '\r',
        ],
        forall|i: int|
            8 <= i < select_answer_text(channel).len() - 10 ==> '0' <= #[trigger] select_answer_text(
                channel,
            )[i] <= '9',
        digits_value(
            select_answer_text(channel).subrange(8, select_answer_text(channel).len() - 10),
        ) == channel + 1,
{
    let t = select_answer_text(channel);
    let d = decimal(channel + 1);
    lemma_decimal_value(channel + 1);
    assert(t.take(8) =~= seq!['c', 'h', 'a', 'n', 'n', 'e', 'l', ' ']);
    assert(t.skip(t.len() - 10) =~= seq![' ', 's', 'e', 'l', 'e', 'c', 't', 'e', 'd', '\r']);
    assert(t.subrange(8, t.len() - 10) =~= d);
    assert forall|i: int| 8 <= i < t.len() - 10 implies '0' <= #[trigger] t[i] <= '9' by {
        assert(t[i] == d[i - 8]);
    }
}

fn digit_text(d: u64) -> (r: &'static str)
    requires
        d < 10,
    ensures
        r@ == seq![digit_char(d as int)],
{
    if d == 0 {
        proof { reveal_strlit("0"); }
        "0"
    } else if d == 1 {
        proof { reveal_strlit("1"); }
        "1"
    } else if d == 2 {
        proof { reveal_strlit("2"); }
        "2"
    } else if d == 3 {
        proof { reveal_strlit("3"); }
        "3"
    } else if d == 4 {
        proof { reveal_strlit("4"); }
        "4"
    } else if d == 5 {
        proof { reveal_strlit("5"); }
        "5"
    } else if d == 6 {
        proof { reveal_strlit("6"); }
        "6"
    } else if d == 7 {
        proof { reveal_strlit("7"); }
        "7"
    } else if d == 8 {
        proof { reveal_strlit("8"); }
        "8"
    } else {
        proof { reveal_strlit("9"); }
        "9"
    }
}

/// Appends the decimal rendering of `n` to `out`.
pub fn push_decimal(out: &mut String, n: u64)
    ensures
        final(out)@ == old(out)@ + decimal(n as nat),
    decreases n,
{
    if n >= 10 {
        push_decimal(out, n / 10);
    }
    let d: &str = digit_text(n % 10);
    out.append(d);
    proof {
        if n >= 10 {
            assert(decimal(n as nat) == decimal((n / 10) as nat).push(digit_char((n % 10) as int)));
        }
    }
}

/// The identity query, `IDN?`.
pub fn identity_query() -> (r: String)
    ensures
        r@ == identity_query_text(),
{
    proof { reveal_strlit("IDN?"); }
    String::from_str("IDN?")
}

/// The status query, `READ`.
pub fn read_query() -> (r: String)
    ensures
        r@ == read_query_text(),
{
    proof { reveal_strlit("READ"); }
    String::from_str("READ")
}

/// The command that selects `channel`, `SEL <channel + 1>` followed by a
/// carriage return.
pub fn select_command(channel: u32) -> (r: String)
    requires
        channel < u32::MAX,
    ensures
        r@ == select_command_text(channel as nat),
{
    proof {
        reveal_strlit("SEL ");
        reveal_strlit("\r");
    }
    let mut out: String = String::from_str("SEL ");
    push_decimal(&mut out, channel as u64 + 1);
    out.append("\r");
    out
}

/// The answer that confirms the selection of `channel`.
pub fn select_answer(channel: u32) -> (r: String)
    requires
        channel < u32::MAX,
    ensures
        r@ == select_answer_text(channel as nat),
{
    proof {
        reveal_strlit("channel ");
        reveal_strlit(" selected\r");
    }
    let mut out: String = String::from_str("channel ");
    push_decimal(&mut out, channel as u64 + 1);
    out.append(" selected\r");
    out
}

/// Checks the instrument's answer to the selection of `channel`: it must be
/// exactly the confirmation for that channel.
pub fn check_select_answer(channel: u32, answer: &str) -> (r: Result<(), Hm7044Error>)
    requires
        channel < u32::MAX,
    ensures
        r is Ok <==> answer@ == select_answer_text(channel as nat),
        r matches Err(e) ==> e@ == ErrorView::BadSelectAnswer(answer@),
{
    let expected: String = select_answer(channel);
    let got: String = answer.to_owned();
    if got == expected {
        Ok(())
    } else {
        Err(Hm7044Error::BadSelectAnswer(got))
    }
}

} // verus!
