//! The state that the driver keeps of the instrument, and its refresh from
//! the instrument's answer to `READ`.
//!
//! That answer has three fields separated by `;`: the voltages, the
//! currents and the output states. The voltage and current fields each end
//! in one unit byte and hold four values separated by spaces; each voltage
//! value ends in one unit byte too. The state field holds one of `CV`, `CC`,
//! `OFF` per channel.

use vstd::prelude::*;
use crate::error::{ErrorView, Hm7044Error, outcome_view};
use crate::number_text::{is_mantissa, is_number_text, number_text, unsigned_part};
use crate::output_state::{
    is_known_state,
    output_enabled,
    output_state_words,
    state_enabled,
    state_words,
};
use crate::text::{drop_last_char, has_one_byte_last, one_byte_last, split_on, split_text, views};

verus! {

broadcast use vstd::string::group_string_axioms;

/// What the driver knows of the instrument's channels.
///
/// Each voltage is kept as the text the instrument sent for it (its unit
/// removed), a valid number text that the caller turns into a number.
pub struct Hm7044Status {
    /// Number of channels that the driver follows.
    pub channel_number: usize,
    /// Per channel, the text of the last voltage read; `0.0` before any read.
    pub voltages: Vec<String>,
    /// Per channel, whether the output was on at the last read.
    pub enables: Vec<bool>,
}

/// The mathematical view of an [`Hm7044Status`].
pub struct StatusView {
    pub channel_number: nat,
    pub voltages: Seq<Seq<char>>,
    pub enables: Seq<bool>,
}

impl View for Hm7044Status {
    type V = StatusView;

    open spec fn view(&self) -> StatusView {
        StatusView {
            channel_number: self.channel_number as nat,
            voltages: views(self.voltages@),
            enables: self.enables@,
        }
    }
}

/// One entry per channel in each list, and every voltage the text of a number.
pub open spec fn status_wf(s: StatusView) -> bool {
    &&& s.voltages.len() == s.channel_number
    &&& s.enables.len() == s.channel_number
    &&& forall|c: int| 0 <= c < s.voltages.len() ==> is_number_text(#[trigger] s.voltages[c])
}

/// The text of the initial voltage, `0.0`.
pub open spec fn zero_voltage_text() -> Seq<char> {
    seq!['0', '.', '0']
}

/// `0.0` is the text of a number.
pub proof fn lemma_zero_is_number()
    ensures
        is_number_text(zero_voltage_text()),
{
    let z = zero_voltage_text();
    assert(unsigned_part(z) == z);
    assert(is_mantissa(z)) by {
        assert(z.len() == 3 && z[0] == '0' && z[1] == '.' && z[2] == '0');
        assert(z != seq!['.']) by {
            assert(seq!['.'].len() == 1);
        }
    }
}

/// The first index below `n`, counting from `c`, at which `ok` fails; `n`
/// when there is none.
pub open spec fn first_failing_from(n: nat, ok: spec_fn(nat) -> bool, c: nat) -> nat
    decreases n - c,
{
    if c >= n {
        n
    } else if !ok(c) {
        c
    } else {
        first_failing_from(n, ok, c + 1)
    }
}

pub open spec fn first_failing(n: nat, ok: spec_fn(nat) -> bool) -> nat {
    first_failing_from(n, ok, 0)
}

proof fn lemma_first_failing_from(n: nat, ok: spec_fn(nat) -> bool, c: nat, i: nat)
    requires
        c <= i <= n,
        forall|j: nat| c <= j < i ==> #[trigger] ok(j),
        i == n || !ok(i),
    ensures
        first_failing_from(n, ok, c) == i,
    decreases i - c,
{
    if c < i {
        lemma_first_failing_from(n, ok, c + 1, i);
    }
}

/// `i` is the first failing index when all before it pass and it fails (or is `n`).
pub proof fn lemma_first_failing(n: nat, ok: spec_fn(nat) -> bool, i: nat)
    requires
        i <= n,
        forall|j: nat| j < i ==> #[trigger] ok(j),
        i == n || !ok(i),
    ensures
        first_failing(n, ok) == i,
{
    lemma_first_failing_from(n, ok, 0, i);
}

proof fn lemma_first_failing_from_props(n: nat, ok: spec_fn(nat) -> bool, c: nat)
    requires
        c <= n,
    ensures
        c <= first_failing_from(n, ok, c) <= n,
        forall|j: nat| c <= j < first_failing_from(n, ok, c) ==> #[trigger] ok(j),
        first_failing_from(n, ok, c) < n ==> !ok(first_failing_from(n, ok, c)),
    decreases n - c,
{
    if c < n && ok(c) {
        lemma_first_failing_from_props(n, ok, c + 1);
    }
}

/// The first failing index is at most `n`, all before it pass, and it fails
/// unless it is `n`.
pub proof fn lemma_first_failing_props(n: nat, ok: spec_fn(nat) -> bool)
    ensures
        first_failing(n, ok) <= n,
        forall|j: nat| j < first_failing(n, ok) ==> #[trigger] ok(j),
        first_failing(n, ok) < n ==> !ok(first_failing(n, ok)),
{
    lemma_first_failing_from_props(n, ok, 0);
}

/// The fields of an answer to `READ`.
pub open spec fn read_fields(answer: Seq<char>) -> Seq<Seq<char>> {
    split_on(answer, ';')
}

/// The values of a voltage or current field: the field without its unit
/// byte, split on spaces.
pub open spec fn field_values(field: Seq<char>) -> Seq<Seq<char>> {
    split_on(field.drop_last(), ' ')
}

/// The answer has three fields, and four voltages and four currents.
pub open spec fn read_shape_ok(answer: Seq<char>) -> bool {
    &&& read_fields(answer).len() == 3
    &&& field_values(read_fields(answer)[0]).len() == 4
    &&& field_values(read_fields(answer)[1]).len() == 4
}

/// A voltage value is accepted when it ends in a one-byte unit and the
/// rest is a number text.
pub open spec fn voltage_value_ok(v: Seq<char>) -> bool {
    has_one_byte_last(v) && is_number_text(v.drop_last())
}

pub open spec fn voltage_ok_at(values: Seq<Seq<char>>) -> spec_fn(nat) -> bool {
    |c: nat| c < values.len() && voltage_value_ok(values[c as int])
}

pub open spec fn state_ok_at(words: Seq<Seq<char>>) -> spec_fn(nat) -> bool {
    |c: nat| c < words.len() && is_known_state(words[c as int])
}

/// The first channel below `n` whose voltage value is missing or not accepted.
pub open spec fn voltage_stop(values: Seq<Seq<char>>, n: nat) -> nat {
    first_failing(n, voltage_ok_at(values))
}

/// The first channel below `n` whose state word is missing or not known.
pub open spec fn state_stop(words: Seq<Seq<char>>, n: nat) -> nat {
    first_failing(n, state_ok_at(words))
}

/// Whether refreshing `n` channels from `answer` stops on a fault rather
/// than on a result: a voltage or current field that does not end in a
/// one-byte character, a voltage value that does not, a channel beyond the
/// four values, or a channel without a state word.
pub open spec fn refresh_faults(n: nat, answer: Seq<char>) -> bool {
    let fields = read_fields(answer);
    &&& fields.len() == 3
    &&& {
        ||| !has_one_byte_last(fields[0])
        ||| !has_one_byte_last(fields[1])
        ||| {
            let volts = field_values(fields[0]);
            let words = state_words(fields[2]);
            let k = voltage_stop(volts, n);
            &&& read_shape_ok(answer)
            &&& if k < n {
                k >= volts.len() || !has_one_byte_last(volts[k as int])
            } else {
                let j = state_stop(words, n);
                j < n && j >= words.len()
            }
        }
    }
}

/// The state and the result after refreshing `s` from `answer`.
///
/// An answer of the wrong shape changes nothing. Otherwise the voltages of
/// the channels before the first rejected voltage are taken; if a voltage is
/// rejected that is the error, else the output states of the channels before
/// the first unknown state word are taken, and an unknown word is the error.
pub open spec fn refresh_view(s: StatusView, answer: Seq<char>) -> (StatusView, Result<(), ErrorView>) {
    let n = s.channel_number;
    let fields = read_fields(answer);
    if !read_shape_ok(answer) {
        (s, Err(ErrorView::UnexpectedReadAnswer(answer)))
    } else {
        let volts = field_values(fields[0]);
        let k = voltage_stop(volts, n);
        let new_voltages = Seq::new(
            n,
            |c: int|
                if c < k {
                    volts[c].drop_last()
                } else {
                    s.voltages[c]
                },
        );
        if k < n {
            (
                StatusView { channel_number: n, voltages: new_voltages, enables: s.enables },
                Err(ErrorView::InvalidVoltage(volts[k as int])),
            )
        } else {
            let words = state_words(fields[2]);
            let j = state_stop(words, n);
            let new_enables = Seq::new(
                n,
                |c: int|
                    if c < j {
                        state_enabled(words[c])
                    } else {
                        s.enables[c]
                    },
            );
            (
                StatusView { channel_number: n, voltages: new_voltages, enables: new_enables },
                if j < n {
                    Err(ErrorView::InvalidOutputState(words[j as int]))
                } else {
                    Ok(())
                },
            )
        }
    }
}

/// The views of owned strings, entry by entry.
pub proof fn lemma_views(v: Seq<String>)
    ensures
        views(v).len() == v.len(),
        forall|i: int| 0 <= i < v.len() ==> #[trigger] views(v)[i] == v[i]@,
{
}

/// Refreshing keeps one entry per channel and every voltage the text of a number.
pub proof fn lemma_refresh_keeps_wf(s: StatusView, answer: Seq<char>)
    requires
        status_wf(s),
    ensures
        status_wf(refresh_view(s, answer).0),
        refresh_view(s, answer).0.channel_number == s.channel_number,
{
    let n = s.channel_number;
    if read_shape_ok(answer) {
        let volts = field_values(read_fields(answer)[0]);
        let vok = voltage_ok_at(volts);
        lemma_first_failing_props(n, vok);
        let k = voltage_stop(volts, n);
        let t = refresh_view(s, answer).0;
        assert forall|c: int| 0 <= c < t.voltages.len() implies is_number_text(
            #[trigger] t.voltages[c],
        ) by {
            if c < k {
                assert(vok(c as nat));
            }
        }
    }
}

/// Refreshing twice from the same answer gives the same state and the same
/// result as refreshing once.
pub proof fn lemma_refresh_idempotent(s: StatusView, answer: Seq<char>)
    requires
        status_wf(s),
    ensures
        refresh_view(refresh_view(s, answer).0, answer) == refresh_view(s, answer),
{
    let n = s.channel_number;
    let t = refresh_view(s, answer).0;
    if read_shape_ok(answer) {
        let fields = read_fields(answer);
        let volts = field_values(fields[0]);
        let k = voltage_stop(volts, n);
        let u = refresh_view(t, answer).0;
        assert(u.voltages =~= t.voltages);
        if k >= n {
            assert(u.enables =~= t.enables);
        }
        assert(u == t);
    }
}

/// A refresh that succeeds leaves a state that depends only on the answer
/// and the number of channels, not on the state before.
pub proof fn lemma_refresh_success_determined(s1: StatusView, s2: StatusView, answer: Seq<char>)
    requires
        status_wf(s1),
        status_wf(s2),
        s1.channel_number == s2.channel_number,
        refresh_view(s1, answer).1 is Ok,
    ensures
        refresh_view(s2, answer).1 is Ok,
        refresh_view(s1, answer).0 == refresh_view(s2, answer).0,
{
    let t1 = refresh_view(s1, answer).0;
    let t2 = refresh_view(s2, answer).0;
    assert(t1.voltages =~= t2.voltages);
    assert(t1.enables =~= t2.enables);
}

/// A refresh succeeds exactly when the answer has the expected shape, the
/// voltage value of every channel is accepted and the state word of every
/// channel is known; then every channel takes its voltage (unit removed) and
/// is on exactly when its state word is `CV` or `CC`.
pub proof fn lemma_refresh_success(s: StatusView, answer: Seq<char>)
    requires
        status_wf(s),
    ensures
        refresh_view(s, answer).1 is Ok <==> {
            &&& read_shape_ok(answer)
            &&& forall|c: nat| c < s.channel_number ==> #[trigger] voltage_ok_at(
                field_values(read_fields(answer)[0]),
            )(c)
            &&& forall|c: nat| c < s.channel_number ==> #[trigger] state_ok_at(
                state_words(read_fields(answer)[2]),
            )(c)
        },
        refresh_view(s, answer).1 is Ok ==> forall|c: int|
            0 <= c < s.channel_number ==> {
                &&& #[trigger] refresh_view(s, answer).0.voltages[c] == field_values(
                    read_fields(answer)[0],
                )[c].drop_last()
                &&& refresh_view(s, answer).0.enables[c] == state_enabled(
                    state_words(read_fields(answer)[2])[c],
                )
            },
{
    let n = s.channel_number;
    if read_shape_ok(answer) {
        let fields = read_fields(answer);
        let vok = voltage_ok_at(field_values(fields[0]));
        let sok = state_ok_at(state_words(fields[2]));
        lemma_first_failing_props(n, vok);
        lemma_first_failing_props(n, sok);
        if forall|c: nat| c < n ==> #[trigger] vok(c) {
            lemma_first_failing(n, vok, n);
            if forall|c: nat| c < n ==> #[trigger] sok(c) {
                lemma_first_failing(n, sok, n);
            }
        }
    }
}

/// An answer without three fields, four voltages and four currents is
/// reported as unexpected and leaves the state as it was.
pub proof fn lemma_refresh_rejects_bad_shape(s: StatusView, answer: Seq<char>)
    requires
        !read_shape_ok(answer),
    ensures
        refresh_view(s, answer) == (s, Err::<(), ErrorView>(ErrorView::UnexpectedReadAnswer(answer))),
{
}

/// A rejected voltage leaves every output state as it was.
pub proof fn lemma_refresh_voltage_error_keeps_states(s: StatusView, answer: Seq<char>)
    requires
        refresh_view(s, answer).1 matches Err(ErrorView::InvalidVoltage(_)),
    ensures
        refresh_view(s, answer).0.enables == s.enables,
{
}

/// A well-formed answer never makes the refresh fault, whatever the output
/// states in it: three fields, voltage and current fields that each end in a
/// one-byte unit and hold four values, a one-byte unit at the end of the
/// voltage value of every followed channel, and a state word for each of them.
pub proof fn lemma_well_formed_answer_does_not_fault(n: nat, answer: Seq<char>)
    requires
        split_on(answer, ';').len() == 3,
        split_on(answer, ';')[0].len() > 0,
        (split_on(answer, ';')[0].last() as u32) < 0x80,
        split_on(answer, ';')[1].len() > 0,
        (split_on(answer, ';')[1].last() as u32) < 0x80,
        split_on(split_on(answer, ';')[0].drop_last(), ' ').len() == 4,
        split_on(split_on(answer, ';')[1].drop_last(), ' ').len() == 4,
        n <= 4,
        forall|c: int|
            0 <= c < n ==> {
                let v = #[trigger] split_on(split_on(answer, ';')[0].drop_last(), ' ')[c];
                v.len() > 0 && (v.last() as u32) < 0x80
            },
        state_words(split_on(answer, ';')[2]).len() >= n,
    ensures
        !refresh_faults(n, answer),
{
    let fields = read_fields(answer);
    let volts = field_values(fields[0]);
    let words = state_words(fields[2]);
    lemma_first_failing_props(n, voltage_ok_at(volts));
    lemma_first_failing_props(n, state_ok_at(words));
    let k = voltage_stop(volts, n);
    if k < n {
        assert(has_one_byte_last(volts[k as int]));
    }
}

/// After a successful refresh, a channel is on exactly when its state word
/// is `CV` or `CC`, and off when it is `OFF`.
pub proof fn lemma_refresh_reads_states_literally(s: StatusView, answer: Seq<char>)
    requires
        status_wf(s),
        refresh_view(s, answer).1 is Ok,
    ensures
        forall|c: int|
            0 <= c < s.channel_number ==> {
                &&& (#[trigger] refresh_view(s, answer).0.enables[c] <==> (state_words(
                    split_on(answer, ';')[2],
                )[c] == seq!['C', 'V'] || state_words(split_on(answer, ';')[2])[c] == seq![
                    'C',
                    'C',
                ]))
                &&& (state_words(split_on(answer, ';')[2])[c] == seq!['O', 'F', 'F']
                    ==> !refresh_view(s, answer).0.enables[c])
            },
{
    lemma_refresh_success(s, answer);
    assert forall|c: int| 0 <= c < s.channel_number implies state_words(
        split_on(answer, ';')[2],
    )[c] == seq!['O', 'F', 'F'] ==> !#[trigger] refresh_view(s, answer).0.enables[c] by {
        let w = state_words(split_on(answer, ';')[2])[c];
        if w == seq!['O', 'F', 'F'] {
            assert(w.len() == 3);
            assert(seq!['C', 'V'].len() == 2);
            assert(seq!['C', 'C'].len() == 2);
        }
    }
}

impl Hm7044Status {
    /// The state of `channel_number` channels before any read: every voltage
    /// `0.0`, every output off.
    pub fn new(channel_number: usize) -> (r: Self)
        ensures
            r@.channel_number == channel_number,
            r@.voltages == Seq::new(channel_number as nat, |c: int| zero_voltage_text()),
            r@.enables == Seq::new(channel_number as nat, |c: int| false),
            status_wf(r@),
    {
        let mut voltages: Vec<String> = Vec::new();
        let mut enables: Vec<bool> = Vec::new();
        let mut i: usize = 0;
        while i < channel_number
            invariant
                i <= channel_number,
                views(voltages@) == Seq::new(i as nat, |c: int| zero_voltage_text()),
                enables@ == Seq::new(i as nat, |c: int| false),
            decreases channel_number - i,
        {
            proof {
                reveal_strlit("0.0");
            }
            let zero: String = String::from_str("0.0");
            assert(zero@ =~= zero_voltage_text());
            proof {
                lemma_zero_is_number();
            }
            let ghost before = views(voltages@);
            voltages.push(zero);
            enables.push(false);
            i = i + 1;
            assert(views(voltages@) =~= before.push(zero_voltage_text()));
            assert(views(voltages@) =~= Seq::new(i as nat, |c: int| zero_voltage_text()));
            assert(enables@ =~= Seq::new(i as nat, |c: int| false));
        }
        Hm7044Status { channel_number, voltages, enables }
    }

    /// Whether refreshing from `answer` would stop on a fault
    /// (see [`refresh_faults`]); [`Hm7044Status::refresh_from_answer`] is
    /// only defined where it would not.
    #[verifier::loop_isolation(false)]
    pub fn refresh_would_fault(&self, answer: &str) -> (r: bool)
        ensures
            r == refresh_faults(self.channel_number as nat, answer@),
    {
        let n: usize = self.channel_number;
        let ghost f = read_fields(answer@);
        let fields: Vec<String> = split_text(answer, ';');
        if fields.len() != 3 {
            return false;
        }
        proof {
            lemma_views(fields@);
        }
        if !one_byte_last(fields[0].as_str()) || !one_byte_last(fields[1].as_str()) {
            return true;
        }
        let vfield: String = drop_last_char(fields[0].as_str());
        let cfield: String = drop_last_char(fields[1].as_str());
        let volts: Vec<String> = split_text(vfield.as_str(), ' ');
        let currents: Vec<String> = split_text(cfield.as_str(), ' ');
        proof {
            lemma_views(volts@);
            lemma_views(currents@);
        }
        if volts.len() != 4 || currents.len() != 4 {
            return false;
        }
        let ghost vv = views(volts@);
        assert(vv == field_values(f[0]));
        assert(read_shape_ok(answer@));
        let ghost vok = voltage_ok_at(vv);
        let mut c: usize = 0;
        while c < n
            invariant
                volts@.len() == 4,
                vv == views(volts@),
                c <= n,
                vok == voltage_ok_at(vv),
                forall|j: nat| j < c ==> #[trigger] vok(j),
            decreases n - c,
        {
            proof {
                lemma_views(volts@);
            }
            if c >= 4 {
                proof {
                    lemma_first_failing(n as nat, vok, c as nat);
                }
                return true;
            }
            if !one_byte_last(volts[c].as_str()) {
                proof {
                    lemma_first_failing(n as nat, vok, c as nat);
                }
                return true;
            }
            let value: String = drop_last_char(volts[c].as_str());
            if !number_text(value.as_str()) {
                proof {
                    lemma_first_failing(n as nat, vok, c as nat);
                }
                return false;
            }
            c = c + 1;
        }
        proof {
            lemma_first_failing(n as nat, vok, n as nat);
        }
        let words: Vec<String> = output_state_words(fields[2].as_str());
        let ghost ww = views(words@);
        assert(ww == state_words(f[2]));
        let ghost sok = state_ok_at(ww);
        let mut c: usize = 0;
        while c < n
            invariant
                ww == views(words@),
                c <= n,
                sok == state_ok_at(ww),
                forall|j: nat| j < c ==> #[trigger] sok(j),
            decreases n - c,
        {
            proof {
                lemma_views(words@);
            }
            if c >= words.len() {
                proof {
                    lemma_first_failing(n as nat, sok, c as nat);
                }
                return true;
            }
            match output_enabled(&words[c]) {
                Some(_) => {},
                None => {
                    proof {
                        lemma_first_failing(n as nat, sok, c as nat);
                    }
                    return false;
                },
            }
            c = c + 1;
        }
        proof {
            lemma_first_failing(n as nat, sok, n as nat);
        }
        false
    }

    /// Refreshes the state from the instrument's answer to `READ`; the result
    /// and the new state are exactly [`refresh_view`] of the old state.
    #[verifier::loop_isolation(false)]
    pub fn refresh_from_answer(&mut self, answer: &str) -> (r: Result<(), Hm7044Error>)
        requires
            status_wf(old(self)@),
            !refresh_faults(old(self).channel_number as nat, answer@),
        ensures
            final(self)@ == refresh_view(old(self)@, answer@).0,
            outcome_view(r) == refresh_view(old(self)@, answer@).1,
            status_wf(final(self)@),
    {
        let n: usize = self.channel_number;
        let ghost s0 = self@;
        let fields: Vec<String> = split_text(answer, ';');
        if fields.len() != 3 {
            return Err(Hm7044Error::UnexpectedReadAnswer(answer.to_owned()));
        }
        let vfield: String = drop_last_char(fields[0].as_str());
        let cfield: String = drop_last_char(fields[1].as_str());
        let volts: Vec<String> = split_text(vfield.as_str(), ' ');
        let currents: Vec<String> = split_text(cfield.as_str(), ' ');
        if volts.len() != 4 || currents.len() != 4 {
            return Err(Hm7044Error::UnexpectedReadAnswer(answer.to_owned()));
        }
        let ghost vv = views(volts@);
        let ghost vok = voltage_ok_at(vv);
        let ghost k = voltage_stop(vv, n as nat);
        proof { lemma_first_failing_props(n as nat, vok); }
        let mut c: usize = 0;
        while c < n
            invariant
                volts@.len() == 4,
                vv == views(volts@),
                vok == voltage_ok_at(vv),
                k == first_failing(n as nat, vok),
                k <= n,
                forall|j: nat| j < k ==> #[trigger] vok(j),
                k < n ==> !vok(k),
                c <= n,
                c <= k,
                n == self.channel_number,
                s0.channel_number == n,
                status_wf(s0),
                !refresh_faults(n as nat, answer@),
                read_shape_ok(answer@),
                vv == field_values(read_fields(answer@)[0]),
                self.enables@ == s0.enables,
                self.channel_number == s0.channel_number,
                views(self.voltages@) == Seq::new(
                    n as nat,
                    |j: int|
                        if j < c {
                            vv[j].drop_last()
                        } else {
                            s0.voltages[j]
                        },
                ),
            decreases n - c,
        {
            assert(c < 4 && has_one_byte_last(vv[c as int])) by {
                if c == k {
                    assert(!vok(k));
                } else {
                    assert(vok(c as nat));
                }
            }
            let value: String = drop_last_char(volts[c].as_str());
            if !number_text(value.as_str()) {
                assert(!vok(c as nat));
                assert(c == k);
                assert(views(self.voltages@) =~= refresh_view(s0, answer@).0.voltages);
                proof {
                    lemma_refresh_keeps_wf(s0, answer@);
                }
                return Err(Hm7044Error::InvalidVoltage(volts[c].clone()));
            }
            assert(vok(c as nat));
            let ghost before = self.voltages@;
            let ghost value_view = value@;
            assert(value_view == vv[c as int].drop_last());
            self.voltages.set(c, value);
            proof {
                lemma_views(before);
                lemma_views(self.voltages@);
                assert(self.voltages@ == before.update(c as int, self.voltages@[c as int]));
                assert(views(self.voltages@) =~= views(before).update(c as int, value_view));
            }
            c = c + 1;
            assert(views(self.voltages@) =~= Seq::new(
                n as nat,
                |j: int|
                    if j < c {
                        vv[j].drop_last()
                    } else {
                        s0.voltages[j]
                    },
            ));
        }
        assert(k == n);
        assert(views(self.voltages@) =~= refresh_view(s0, answer@).0.voltages);
        let words: Vec<String> = output_state_words(fields[2].as_str());
        let ghost ww = views(words@);
        let ghost sok = state_ok_at(ww);
        let ghost j0 = state_stop(ww, n as nat);
        proof { lemma_first_failing_props(n as nat, sok); }
        let ghost vs1 = views(self.voltages@);
        let mut c: usize = 0;
        while c < n
            invariant
                ww == views(words@),
                sok == state_ok_at(ww),
                j0 == first_failing(n as nat, sok),
                j0 <= n,
                forall|j: nat| j < j0 ==> #[trigger] sok(j),
                j0 < n ==> !sok(j0),
                j0 < n ==> j0 < ww.len(),
                c <= n,
                c <= j0,
                n == self.channel_number,
                s0.channel_number == n,
                status_wf(s0),
                views(self.voltages@) == vs1,
                self.channel_number == s0.channel_number,
                self.enables@ == Seq::new(
                    n as nat,
                    |j: int|
                        if j < c {
                            state_enabled(ww[j])
                        } else {
                            s0.enables[j]
                        },
                ),
            decreases n - c,
        {
            assert(c < ww.len()) by {
                if c < j0 {
                    assert(sok(c as nat));
                }
            }
            match output_enabled(&words[c]) {
                Some(b) => {
                    self.enables.set(c, b);
                    c = c + 1;
                    assert(self.enables@ =~= Seq::new(
                        n as nat,
                        |j: int|
                            if j < c {
                                state_enabled(ww[j])
                            } else {
                                s0.enables[j]
                            },
                    ));
                },
                None => {
                    assert(!sok(c as nat));
                    assert(c == j0);
                    assert(self.enables@ =~= refresh_view(s0, answer@).0.enables);
                    proof {
                        lemma_refresh_keeps_wf(s0, answer@);
                    }
                    return Err(Hm7044Error::InvalidOutputState(words[c].clone()));
                },
            }
        }
        assert(j0 == n);
        assert(self.enables@ =~= refresh_view(s0, answer@).0.enables);
        proof {
            lemma_refresh_keeps_wf(s0, answer@);
        }
        Ok(())
    }
}

} // verus!
