//! Event payloads and graph ids recorded for task steps.

use vstd::prelude::*;

use crate::json::{json_escape_seq, push_json_escaped};
use crate::model::StepRef;
use crate::num::{dec_int, i64_to_dec, zeros};
use crate::text::{append_chars, append_str, string_of};

verus! {

broadcast use vstd::string::group_string_axioms;

/// `task:<task_id>`.
pub fn task_graph_node_id(task_id: &str) -> (r: String)
    ensures
        r@ == "task:"@ + task_id@,
{
    let mut out: Vec<char> = Vec::new();
    append_str(&mut out, "task:");
    append_str(&mut out, task_id);
    string_of(out.as_slice())
}

/// `step:<step_id>`.
pub fn step_graph_node_id(step_id: &str) -> (r: String)
    ensures
        r@ == "step:"@ + step_id@,
{
    let mut out: Vec<char> = Vec::new();
    append_str(&mut out, "step:");
    append_str(&mut out, step_id);
    string_of(out.as_slice())
}

pub fn build_task_graph_meta_json(task_id: &str) -> (r: String)
    ensures
        r@ == "{\"source\":\"tasks\",\"task_id\":\""@ + json_escape_seq(task_id@) + "\"}"@,
{
    let mut out: Vec<char> = Vec::new();
    append_str(&mut out, "{\"source\":\"tasks\",\"task_id\":\"");
    push_json_escaped(&mut out, task_id);
    append_str(&mut out, "\"}");
    string_of(out.as_slice())
}

pub fn build_step_graph_meta_json(task_id: &str, step: &StepRef) -> (r: String)
    ensures
        r@ == "{\"source\":\"tasks\",\"task_id\":\""@ + json_escape_seq(task_id@)
            + "\",\"step_id\":\""@ + json_escape_seq(step.step_id@) + "\",\"path\":\""@
            + json_escape_seq(step.path@) + "\"}"@,
{
    let mut out: Vec<char> = Vec::new();
    append_str(&mut out, "{\"source\":\"tasks\",\"task_id\":\"");
    push_json_escaped(&mut out, task_id);
    append_str(&mut out, "\",\"step_id\":\"");
    push_json_escaped(&mut out, step.step_id.as_str());
    append_str(&mut out, "\",\"path\":\"");
    push_json_escaped(&mut out, step.path.as_str());
    append_str(&mut out, "\"}");
    string_of(out.as_slice())
}

/// `{"step_id":"<id>","path":"<path>"}` for one added step.
pub open spec fn step_entry_seq(step: StepRef) -> Seq<char> {
    "{\"step_id\":\""@ + step.step_id@ + "\",\"path\":\""@ + step.path@ + "\"}"@
}

/// The comma-separated entries of the first `n` steps.
pub open spec fn step_entries_seq(steps: Seq<StepRef>) -> Seq<char>
    decreases steps.len(),
{
    if steps.len() == 0 {
        Seq::empty()
    } else if steps.len() == 1 {
        step_entry_seq(steps[0])
    } else {
        step_entries_seq(steps.drop_last()) + ","@ + step_entry_seq(steps.last())
    }
}

pub open spec fn steps_added_seq(
    task_id: Seq<char>,
    parent_path: Option<Seq<char>>,
    steps: Seq<StepRef>,
) -> Seq<char> {
    "{\"task\":\""@ + task_id + "\",\"parent_path\":"@ + match parent_path {
        None => "null"@,
        Some(p) => "\""@ + p + "\""@,
    } + ",\"steps\":["@ + step_entries_seq(steps) + "]}"@
}

pub fn build_steps_added_payload(task_id: &str, parent_path: Option<&str>, steps: &[StepRef]) -> (r: String)
    ensures
        r@ == steps_added_seq(
            task_id@,
            match parent_path {
                None => None,
                Some(p) => Some(p@),
            },
            steps@,
        ),
{
    let mut out: Vec<char> = Vec::new();
    append_str(&mut out, "{\"task\":\"");
    append_str(&mut out, task_id);
    append_str(&mut out, "\",\"parent_path\":");
    match parent_path {
        None => append_str(&mut out, "null"),
        Some(path) => {
            append_str(&mut out, "\"");
            append_str(&mut out, path);
            append_str(&mut out, "\"");
        },
    }
    append_str(&mut out, ",\"steps\":[");
    let ghost head = out@;
    let mut i: usize = 0;
    while i < steps.len()
        invariant
            i <= steps@.len(),
            out@ == head + step_entries_seq(steps@.take(i as int)),
        decreases steps@.len() - i,
    {
        assert(steps@.take(i + 1).drop_last() =~= steps@.take(i as int));
        if i != 0 {
            append_str(&mut out, ",");
        }
        let step = &steps[i];
        append_str(&mut out, "{\"step_id\":\"");
        append_str(&mut out, step.step_id.as_str());
        append_str(&mut out, "\",\"path\":\"");
        append_str(&mut out, step.path.as_str());
        append_str(&mut out, "\"}");
        i = i + 1;
        assert(out@ =~= head + step_entries_seq(steps@.take(i as int)));
    }
    assert(steps@.take(steps@.len() as int) =~= steps@);
    append_str(&mut out, "]}");
    proof {
        let pp = match parent_path {
            None => None,
            Some(p) => Some(p@),
        };
        assert(out@ =~= steps_added_seq(task_id@, pp, steps@));
    }
    string_of(out.as_slice())
}

/// The comma-separated quoted field names.
pub open spec fn quoted_list_seq(fields: Seq<Seq<char>>) -> Seq<char>
    decreases fields.len(),
{
    if fields.len() == 0 {
        Seq::empty()
    } else if fields.len() == 1 {
        "\""@ + fields[0] + "\""@
    } else {
        quoted_list_seq(fields.drop_last()) + ","@ + "\""@ + fields.last() + "\""@
    }
}

/// `"task":"<task>","step_id":"<id>","path":"<path>"` after the opening brace.
pub open spec fn step_head_seq(task_id: Seq<char>, step: StepRef) -> Seq<char> {
    "{\"task\":\""@ + task_id + "\",\"step_id\":\""@ + step.step_id@ + "\",\"path\":\""@ + step.path@
        + "\""@
}

pub fn build_step_defined_payload(task_id: &str, step: &StepRef, fields: &[&str]) -> (r: String)
    ensures
        r@ == step_head_seq(task_id@, *step) + ",\"fields\":["@ + quoted_list_seq(
            fields@.map_values(|f: &str| f@),
        ) + "]}"@,
{
    let mut out: Vec<char> = Vec::new();
    push_step_head(&mut out, task_id, step);
    append_str(&mut out, ",\"fields\":[");
    let ghost head = out@;
    let ghost fs = fields@.map_values(|f: &str| f@);
    let mut i: usize = 0;
    while i < fields.len()
        invariant
            i <= fields@.len(),
            fs == fields@.map_values(|f: &str| f@),
            out@ == head + quoted_list_seq(fs.take(i as int)),
        decreases fields@.len() - i,
    {
        assert(fs.take(i + 1).drop_last() =~= fs.take(i as int));
        if i != 0 {
            append_str(&mut out, ",");
        }
        append_str(&mut out, "\"");
        append_str(&mut out, fields[i]);
        append_str(&mut out, "\"");
        i = i + 1;
        assert(out@ =~= head + quoted_list_seq(fs.take(i as int)));
    }
    assert(fs.take(fields@.len() as int) =~= fs);
    append_str(&mut out, "]}");
    assert(out@ =~= step_head_seq(task_id@, *step) + ",\"fields\":["@ + quoted_list_seq(fs) + "]}"@);
    string_of(out.as_slice())
}

fn push_step_head(out: &mut Vec<char>, task_id: &str, step: &StepRef)
    ensures
        final(out)@ == old(out)@ + step_head_seq(task_id@, *step),
{
    append_str(out, "{\"task\":\"");
    append_str(out, task_id);
    append_str(out, "\",\"step_id\":\"");
    append_str(out, step.step_id.as_str());
    append_str(out, "\",\"path\":\"");
    append_str(out, step.path.as_str());
    append_str(out, "\"");
    assert(final(out)@ =~= old(out)@ + step_head_seq(task_id@, *step));
}

pub fn build_step_noted_payload(task_id: &str, step: &StepRef, note_seq: i64) -> (r: String)
    ensures
        r@ == step_head_seq(task_id@, *step) + ",\"note_seq\":"@ + dec_int(note_seq as int) + "}"@,
{
    let mut out: Vec<char> = Vec::new();
    push_step_head(&mut out, task_id, step);
    append_str(&mut out, ",\"note_seq\":");
    let d = i64_to_dec(note_seq);
    append_chars(&mut out, d.as_slice());
    append_str(&mut out, "}");
    string_of(out.as_slice())
}

pub fn build_step_noted_mirror_meta_json(
    task_id: &str,
    step: &StepRef,
    note_seq: i64,
    event_id: &str,
) -> (r: String)
    ensures
        r@ == "{\"source\":\"tasks_note\",\"task_id\":\""@ + task_id@ + "\",\"step_id\":\""@
            + step.step_id@ + "\",\"path\":\""@ + step.path@ + "\",\"note_seq\":"@ + dec_int(
            note_seq as int,
        ) + ",\"event_id\":\""@ + event_id@ + "\"}"@,
{
    let mut out: Vec<char> = Vec::new();
    append_str(&mut out, "{\"source\":\"tasks_note\",\"task_id\":\"");
    append_str(&mut out, task_id);
    append_str(&mut out, "\",\"step_id\":\"");
    append_str(&mut out, step.step_id.as_str());
    append_str(&mut out, "\",\"path\":\"");
    append_str(&mut out, step.path.as_str());
    append_str(&mut out, "\",\"note_seq\":");
    let d = i64_to_dec(note_seq);
    append_chars(&mut out, d.as_slice());
    append_str(&mut out, ",\"event_id\":\"");
    append_str(&mut out, event_id);
    append_str(&mut out, "\"}");
    string_of(out.as_slice())
}

/// `,"<key>":true` or `,"<key>":false`, or nothing when the flag is absent.
pub open spec fn opt_flag_seq(key: Seq<char>, v: Option<bool>) -> Seq<char> {
    match v {
        None => Seq::empty(),
        Some(b) => ",\""@ + key + "\":"@ + if b {
            "true"@
        } else {
            "false"@
        },
    }
}

fn push_opt_flag(out: &mut Vec<char>, key: &str, v: Option<bool>)
    ensures
        final(out)@ == old(out)@ + opt_flag_seq(key@, v),
{
    if let Some(b) = v {
        append_str(out, ",\"");
        append_str(out, key);
        append_str(out, "\":");
        if b {
            append_str(out, "true");
        } else {
            append_str(out, "false");
        }
    }
    assert(final(out)@ =~= old(out)@ + opt_flag_seq(key@, v));
}

pub fn build_step_verified_payload(
    task_id: &str,
    step: &StepRef,
    criteria_confirmed: Option<bool>,
    tests_confirmed: Option<bool>,
) -> (r: String)
    ensures
        r@ == step_head_seq(task_id@, *step) + opt_flag_seq("criteria_confirmed"@, criteria_confirmed)
            + opt_flag_seq("tests_confirmed"@, tests_confirmed) + "}"@,
{
    let mut out: Vec<char> = Vec::new();
    push_step_head(&mut out, task_id, step);
    push_opt_flag(&mut out, "criteria_confirmed", criteria_confirmed);
    push_opt_flag(&mut out, "tests_confirmed", tests_confirmed);
    append_str(&mut out, "}");
    assert(out@ =~= step_head_seq(task_id@, *step) + opt_flag_seq("criteria_confirmed"@, criteria_confirmed)
        + opt_flag_seq("tests_confirmed"@, tests_confirmed) + "}"@);
    string_of(out.as_slice())
}

pub fn build_step_done_payload(task_id: &str, step: &StepRef) -> (r: String)
    ensures
        r@ == step_head_seq(task_id@, *step) + "}"@,
{
    let mut out: Vec<char> = Vec::new();
    push_step_head(&mut out, task_id, step);
    append_str(&mut out, "}");
    assert(out@ =~= step_head_seq(task_id@, *step) + "}"@);
    string_of(out.as_slice())
}

/// The uppercase hexadecimal digit for `d` (`0 <= d < 16`).
pub open spec fn hex_upper_char(d: nat) -> char {
    seq!['0', '1', '2', '3', '4', '5', '6', '7', '8', '9', 'A', 'B', 'C', 'D', 'E', 'F'][d as int]
}

/// `format!("{:0w$X}", h)`: the uppercase hexadecimal digits of `h`, zero-padded to `w`.
pub open spec fn hex_upper_padded(h: nat, w: nat) -> Seq<char>
    decreases h,
{
    let rest: nat = if w >= 1 {
        (w - 1) as nat
    } else {
        0
    };
    if h < 16 {
        zeros(rest).push(hex_upper_char(h))
    } else {
        hex_upper_padded(h / 16, rest).push(hex_upper_char(h % 16))
    }
}

fn hex_upper_digit(d: u64) -> (c: char)
    requires
        d < 16,
    ensures
        c == hex_upper_char(d as nat),
{
    let ghost t = seq!['0', '1', '2', '3', '4', '5', '6', '7', '8', '9', 'A', 'B', 'C', 'D', 'E', 'F'];
    assert(t[0] == '0' && t[1] == '1' && t[2] == '2' && t[3] == '3' && t[4] == '4');
    assert(t[5] == '5' && t[6] == '6' && t[7] == '7' && t[8] == '8' && t[9] == '9');
    assert(t[10] == 'A' && t[11] == 'B' && t[12] == 'C' && t[13] == 'D' && t[14] == 'E');
    assert(t[15] == 'F');
    match d {
        0 => '0',
        1 => '1',
        2 => '2',
        3 => '3',
        4 => '4',
        5 => '5',
        6 => '6',
        7 => '7',
        8 => '8',
        9 => '9',
        10 => 'A',
        11 => 'B',
        12 => 'C',
        13 => 'D',
        14 => 'E',
        _ => 'F',
    }
}

/// Appends `h` in upper-case hex, zero-padded to `w` digits (`{:0w$X}`).
pub fn push_hex_upper(out: &mut Vec<char>, h: u64, w: usize)
    ensures
        final(out)@ == old(out)@ + hex_upper_padded(h as nat, w as nat),
    decreases h,
{
    let rest: usize = if w >= 1 {
        w - 1
    } else {
        0
    };
    if h < 16 {
        let ghost start = out@;
        let mut k: usize = 0;
        while k < rest
            invariant
                k <= rest,
                out@ == start + zeros(k as nat),
            decreases rest - k,
        {
            out.push('0');
            assert(zeros((k + 1) as nat) =~= zeros(k as nat).push('0'));
            k = k + 1;
        }
        out.push(hex_upper_digit(h));
        assert(out@ =~= start + zeros(rest as nat).push(hex_upper_char(h as nat)));
    } else {
        let ghost start = out@;
        push_hex_upper(out, h / 16, rest);
        out.push(hex_upper_digit(h % 16));
        assert(out@ =~= start + hex_upper_padded((h / 16) as nat, rest as nat).push(
            hex_upper_char((h % 16) as nat),
        ));
    }
}

/// The id of the step numbered `seq`: `STEP-` and its number in uppercase hexadecimal, at
/// least eight digits (a negative number is written as its 64-bit two's complement).
pub open spec fn step_id_spec(seq: i64) -> Seq<char> {
    "STEP-"@ + hex_upper_padded((seq as u64) as nat, 8)
}

pub fn step_id_for_seq(seq: i64) -> (r: String)
    ensures
        r@ == step_id_spec(seq),
{
    let mut out: Vec<char> = Vec::new();
    append_str(&mut out, "STEP-");
    push_hex_upper(&mut out, seq as u64, 8);
    string_of(out.as_slice())
}

/// The ordinal of the next step under a parent, after the largest one there (if any).
pub fn next_step_ordinal(max_ordinal: Option<i64>) -> (r: i64)
    requires
        max_ordinal matches Some(m) ==> m < i64::MAX,
    ensures
        r == match max_ordinal {
            Some(m) => m + 1,
            None => 0,
        },
{
    match max_ordinal {
        Some(m) => m + 1,
        None => 0,
    }
}

/// A step path from the ordinals along it, root first: `s:<a>.s:<b>...`.
pub open spec fn step_path_spec(ordinals: Seq<i64>) -> Seq<char>
    decreases ordinals.len(),
{
    if ordinals.len() == 0 {
        Seq::empty()
    } else if ordinals.len() == 1 {
        "s:"@ + dec_int(ordinals[0] as int)
    } else {
        step_path_spec(ordinals.drop_last()) + ".s:"@ + dec_int(ordinals.last() as int)
    }
}

pub fn step_path_of(ordinals: &[i64]) -> (r: String)
    ensures
        r@ == step_path_spec(ordinals@),
{
    let mut out: Vec<char> = Vec::new();
    let mut i: usize = 0;
    assert(ordinals@.take(0) =~= Seq::<i64>::empty());
    while i < ordinals.len()
        invariant
            i <= ordinals@.len(),
            out@ == step_path_spec(ordinals@.take(i as int)),
        decreases ordinals@.len() - i,
    {
        let ghost before = out@;
        if i > 0 {
            append_str(&mut out, ".");
        }
        append_str(&mut out, "s:");
        let d = i64_to_dec(ordinals[i]);
        append_chars(&mut out, d.as_slice());
        proof {
            reveal_strlit(".");
            reveal_strlit("s:");
            reveal_strlit(".s:");
            assert(ordinals@.take(i + 1).drop_last() =~= ordinals@.take(i as int));
            if i == 0 {
                assert(out@ =~= "s:"@ + dec_int(ordinals@[0] as int));
            } else {
                assert(out@ =~= before + ".s:"@ + dec_int(ordinals@[i as int] as int));
            }
        }
        i = i + 1;
    }
    assert(ordinals@.take(ordinals@.len() as int) =~= ordinals@);
    string_of(out.as_slice())
}

/// The step numbered `seq` placed at `ordinal` under the step at `parent` (ordinals from the
/// root; empty for the task itself): its id and its path.
pub open spec fn new_step_ref_matches(r: StepRef, parent: Seq<i64>, ordinal: i64, seq: i64) -> bool {
    r.step_id@ == step_id_spec(seq) && r.path@ == step_path_spec(parent.push(ordinal))
}

/// The steps added under one parent: the i-th gets the ordinal after the largest one there
/// (`max_ordinal`, none when the parent has no steps yet) plus i, and the id of the i-th
/// step number in `seqs`. Adding no steps is refused.
pub fn plan_new_steps(parent: &[i64], max_ordinal: Option<i64>, seqs: &[i64]) -> (r: Result<
    Vec<StepRef>,
    crate::error::StoreError,
>)
    requires
        max_ordinal matches Some(m) ==> 0 <= m && m + seqs@.len() < i64::MAX,
        seqs@.len() < i64::MAX,
    ensures
        seqs@.len() == 0 ==> (r matches Err(crate::error::StoreError::InvalidInput(m)) && m@
            == "steps must not be empty"@),
        seqs@.len() > 0 ==> (r matches Ok(v) && v@.len() == seqs@.len() && forall|i: int|
            0 <= i < seqs@.len() ==> new_step_ref_matches(
                #[trigger] v@[i],
                parent@,
                (match max_ordinal {
                    Some(m) => m + 1,
                    None => 0,
                } + i) as i64,
                seqs@[i],
            )),
{
    if seqs.len() == 0 {
        return Err(crate::error::StoreError::InvalidInput("steps must not be empty"));
    }
    let base = next_step_ordinal(max_ordinal);
    let mut out: Vec<StepRef> = Vec::new();
    let mut i: usize = 0;
    while i < seqs.len()
        invariant
            i <= seqs@.len(),
            seqs@.len() < i64::MAX,
            base == match max_ordinal {
                Some(m) => m + 1,
                None => 0,
            },
            0 <= base,
            base + seqs@.len() <= i64::MAX,
            out@.len() == i,
            forall|k: int|
                0 <= k < i ==> new_step_ref_matches(
                    #[trigger] out@[k],
                    parent@,
                    (base + k) as i64,
                    seqs@[k],
                ),
        decreases seqs@.len() - i,
    {
        let ordinal: i64 = base + i as i64;
        let mut ords: Vec<i64> = Vec::new();
        let mut j: usize = 0;
        while j < parent.len()
            invariant
                j <= parent@.len(),
                ords@ == parent@.take(j as int),
            decreases parent@.len() - j,
        {
            ords.push(parent[j]);
            j = j + 1;
            assert(ords@ =~= parent@.take(j as int));
        }
        assert(parent@.take(parent@.len() as int) =~= parent@);
        ords.push(ordinal);
        let r = StepRef { step_id: step_id_for_seq(seqs[i]), path: step_path_of(ords.as_slice()) };
        out.push(r);
        i = i + 1;
    }
    Ok(out)
}

} // verus!
