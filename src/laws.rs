//! Properties of the assembler that relate several of its parts, proved.
use vstd::prelude::*;

use crate::driver::{assembled, emit, scan, scan_step, ScanModel, MAX_WORDS};
use crate::error::ErrorModel;
use crate::instruction::{encoding, jump_target, own_words, word8, word_count, InstrModel};
use crate::register::reg_bits;
use crate::parser::{parse_tokens, LineModel};
use crate::register::Register;
use crate::text::lines_of;

verus! {

/// A two-register instruction encodes to one word: its 4-bit opcode, then the
/// code of `reg_a`, then that of `reg_b`.
pub proof fn law_two_register_encoding(reg_a: Register, reg_b: Register)
    ensures
        own_words(InstrModel::Add { reg_a, reg_b }) == seq!["1000"@ + reg_bits(reg_a) + reg_bits(reg_b)],
        own_words(InstrModel::Shr { reg_a, reg_b }) == seq!["1001"@ + reg_bits(reg_a) + reg_bits(reg_b)],
        own_words(InstrModel::Shl { reg_a, reg_b }) == seq!["1010"@ + reg_bits(reg_a) + reg_bits(reg_b)],
        own_words(InstrModel::Not { reg_a, reg_b }) == seq!["1011"@ + reg_bits(reg_a) + reg_bits(reg_b)],
        own_words(InstrModel::And { reg_a, reg_b }) == seq!["1100"@ + reg_bits(reg_a) + reg_bits(reg_b)],
        own_words(InstrModel::Or { reg_a, reg_b }) == seq!["1101"@ + reg_bits(reg_a) + reg_bits(reg_b)],
        own_words(InstrModel::XOr { reg_a, reg_b }) == seq!["1110"@ + reg_bits(reg_a) + reg_bits(reg_b)],
        own_words(InstrModel::Store { reg_a, reg_b }) == seq!["0001"@ + reg_bits(reg_a) + reg_bits(reg_b)],
        own_words(InstrModel::Load { reg_a, reg_b }) == seq!["0000"@ + reg_bits(reg_a) + reg_bits(reg_b)],
{
}

/// A `MARK name` line read when the program holds `st.words` words records
/// `name` at address `st.words + 1` and changes nothing else; a `JMP` to an
/// address `a` encodes to `01000000` followed by `a` as an 8-bit word.
pub proof fn law_mark_address(st: ScanModel, name: Seq<char>, line: nat, a: nat)
    ensures
        scan_step(st, seq!["MARK"@, name], line) == Ok::<ScanModel, ErrorModel>(
            ScanModel { labels: st.labels.insert(name, st.words + 1), ..st },
        ),
        encoding(InstrModel::JumpAddress { mark: name }, a) == seq!["01000000"@, word8(a)],
{
    reveal_strlit("MARK");
}

/// Every jump of a program takes its address from the label table of the whole
/// text, so a mark placed after the jump resolves as one placed before it: the
/// words of the `k`-th instruction are its encoding at its label's address.
pub proof fn law_jumps_use_final_labels(lines: Seq<Seq<char>>, k: int)
    requires
        scan(lines) is Ok,
        0 <= k < scan(lines)->Ok_0.program.len(),
        emit(scan(lines)->Ok_0.program.take(k), scan(lines)->Ok_0.labels) is Ok,
        jump_target(scan(lines)->Ok_0.program[k].1) is Some,
        scan(lines)->Ok_0.labels.contains_key(jump_target(scan(lines)->Ok_0.program[k].1)->0),
    ensures
        ({
            let st = scan(lines)->Ok_0;
            let i = st.program[k].1;
            emit(st.program.take(k + 1), st.labels) == Ok::<Seq<Seq<char>>, ErrorModel>(
                emit(st.program.take(k), st.labels)->Ok_0 + encoding(
                    i,
                    st.labels[jump_target(i)->0],
                ),
            )
        }),
{
    let st = scan(lines)->Ok_0;
    assert(st.program.take(k + 1).drop_last() =~= st.program.take(k));
}

/// Every program that assembles ends with the halt word, whatever its own last
/// instruction.
pub proof fn law_ends_with_halt(src: Seq<char>)
    requires
        assembled(src) is Ok,
    ensures
        assembled(src)->Ok_0.len() > 0,
        assembled(src)->Ok_0.last() == "11001111"@,
{
}

/// The first pass never accepts more words than the machine addresses.
pub proof fn law_size_bound(lines: Seq<Seq<char>>)
    requires
        scan(lines) is Ok,
    ensures
        scan(lines)->Ok_0.words <= MAX_WORDS,
    decreases lines.len(),
{
    if lines.len() > 0 {
        law_size_bound(lines.drop_last());
    }
}

/// An instruction that keeps the program within the machine's memory, up to
/// and including exactly `MAX_WORDS` words, is taken in; one that takes it past
/// is refused with `ProgramTooLarge`, giving the size reached and the limit.
pub proof fn law_size_limit(st: ScanModel, t: Seq<Seq<char>>, line: nat, i: InstrModel)
    requires
        parse_tokens_op(t, line, i),
    ensures
        st.words + word_count(i) <= MAX_WORDS ==> scan_step(st, t, line) == Ok::<
            ScanModel,
            ErrorModel,
        >(ScanModel { words: st.words + word_count(i), program: st.program.push((line, i)), ..st }),
        st.words + word_count(i) > MAX_WORDS ==> scan_step(st, t, line) == Err::<
            ScanModel,
            ErrorModel,
        >(ErrorModel::ProgramTooLarge { found: st.words + word_count(i), max: MAX_WORDS as nat }),
{
}

/// The tokens `t` of source line `line` read as the instruction `i`.
pub open spec fn parse_tokens_op(t: Seq<Seq<char>>, line: nat, i: InstrModel) -> bool {
    parse_tokens(t, line) == Ok::<LineModel, ErrorModel>(LineModel::Op(i))
}

/// The second pass fails only on undefined labels.
proof fn lemma_emit_errors(program: Seq<(nat, InstrModel)>, labels: Map<Seq<char>, nat>)
    requires
        emit(program, labels) is Err,
    ensures
        emit(program, labels)->Err_0 is UndefinedLabel,
    decreases program.len(),
{
    if emit(program.drop_last(), labels) is Err {
        lemma_emit_errors(program.drop_last(), labels);
    }
}

/// Once a prefix of a program fails, the whole second pass fails.
proof fn lemma_emit_prefix_fails(
    program: Seq<(nat, InstrModel)>,
    labels: Map<Seq<char>, nat>,
    k: int,
)
    requires
        0 <= k <= program.len(),
        emit(program.take(k), labels) is Err,
    ensures
        emit(program, labels) is Err,
    decreases program.len(),
{
    if k < program.len() {
        assert(program.drop_last().take(k) =~= program.take(k));
        lemma_emit_prefix_fails(program.drop_last(), labels, k);
    } else {
        assert(program.take(k) =~= program);
    }
}

/// A jump to a label that no `MARK` of the text defines makes the whole
/// assembly fail with `UndefinedLabel`: no words come out.
pub proof fn law_undefined_label(src: Seq<char>, k: int)
    requires
        scan(lines_of(src)) is Ok,
        0 <= k < scan(lines_of(src))->Ok_0.program.len(),
        jump_target(scan(lines_of(src))->Ok_0.program[k].1) is Some,
        !scan(lines_of(src))->Ok_0.labels.contains_key(
            jump_target(scan(lines_of(src))->Ok_0.program[k].1)->0,
        ),
    ensures
        assembled(src) is Err,
        assembled(src)->Err_0 is UndefinedLabel,
{
    let st = scan(lines_of(src))->Ok_0;
    let p = st.program;
    assert(p.take(k + 1).drop_last() =~= p.take(k));
    assert(p.take(k + 1).last() == p[k]);
    lemma_emit_prefix_fails(p, st.labels, k + 1);
    lemma_emit_errors(p, st.labels);
}

/// Blank lines and comment lines leave the word count, the labels and the
/// program as they were.
pub proof fn law_blank_and_comment_lines(st: ScanModel, t: Seq<Seq<char>>, line: nat)
    requires
        t.len() == 0 || (t[0].len() > 0 && t[0][0] == '#'),
    ensures
        scan_step(st, t, line) == Ok::<ScanModel, ErrorModel>(st),
{
}

} // verus!
