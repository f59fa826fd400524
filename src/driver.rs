use vstd::prelude::*;

use crate::error::{outcome, AsmError, ErrorModel};
use crate::instruction::{
    encoding, jump_target, own_words, word8, word_count, word_of, InstrModel, Instructions,
};
use crate::labels::LabelTable;
use crate::parser::{parse_line, parse_tokens, LineModel, SourceLine};
use crate::text::{char_rows, lines_of, source_lines, texts, tokenize, tokens};

verus! {

/// How many words the machine can address.
pub const MAX_WORDS: usize = 256;

/// The state of the first pass as a mathematical value.
pub struct ScanModel {
    /// Words the instructions read so far occupy.
    pub words: nat,
    /// Mark names and their addresses.
    pub labels: Map<Seq<char>, nat>,
    /// The instructions read so far, each with its source line.
    pub program: Seq<(nat, InstrModel)>,
}

/// The first pass over one more line: the tokens `t` of source line `line`.
/// An instruction that takes the program past `MAX_WORDS` words ends the pass.
pub open spec fn scan_step(st: ScanModel, t: Seq<Seq<char>>, line: nat) -> Result<
    ScanModel,
    ErrorModel,
> {
    match parse_tokens(t, line) {
        Err(e) => Err(e),
        Ok(LineModel::Blank) => Ok(st),
        Ok(LineModel::Mark(name)) => Ok(
            ScanModel { labels: st.labels.insert(name, st.words + 1), ..st },
        ),
        Ok(LineModel::Op(i)) => {
            let words = st.words + word_count(i);
            if words > MAX_WORDS {
                Err(ErrorModel::ProgramTooLarge { found: words, max: MAX_WORDS as nat })
            } else {
                Ok(ScanModel { words, program: st.program.push((line, i)), ..st })
            }
        },
    }
}

/// The first pass over the lines `lines`, numbered from 1: the program, its
/// labels and its size, or the first error met.
pub open spec fn scan(lines: Seq<Seq<char>>) -> Result<ScanModel, ErrorModel>
    decreases lines.len(),
{
    if lines.len() == 0 {
        Ok(ScanModel { words: 0, labels: Map::empty(), program: Seq::empty() })
    } else {
        match scan(lines.drop_last()) {
            Err(e) => Err(e),
            Ok(st) => scan_step(st, tokens(lines.last()), lines.len()),
        }
    }
}

/// The second pass: the words of `program`, in order, with each jump's target
/// resolved through `labels` and written as an 8-bit word, or the first jump
/// whose label is undefined.
pub open spec fn emit(program: Seq<(nat, InstrModel)>, labels: Map<Seq<char>, nat>) -> Result<
    Seq<Seq<char>>,
    ErrorModel,
>
    decreases program.len(),
{
    if program.len() == 0 {
        Ok(Seq::empty())
    } else {
        match emit(program.drop_last(), labels) {
            Err(e) => Err(e),
            Ok(w) => {
                let (line, i) = program.last();
                match jump_target(i) {
                    Some(name) => if labels.contains_key(name) {
                        Ok(w + encoding(i, labels[name]))
                    } else {
                        Err(ErrorModel::UndefinedLabel { line, label: name })
                    },
                    None => Ok(w + own_words(i)),
                }
            },
        }
    }
}

/// The word that halts the machine, appended to every program.
pub open spec fn end_word() -> Seq<char> {
    "11001111"@
}

/// What assembling the text `src` gives: both passes, then the halt word.
pub open spec fn assembled(src: Seq<char>) -> Result<Seq<Seq<char>>, ErrorModel> {
    match scan(lines_of(src)) {
        Err(e) => Err(e),
        Ok(st) => match emit(st.program, st.labels) {
            Err(e) => Err(e),
            Ok(w) => Ok(w.push(end_word())),
        },
    }
}

/// Once a prefix of the lines fails, the whole first pass fails the same way.
proof fn lemma_scan_error_stays(lines: Seq<Seq<char>>, k: int)
    requires
        0 <= k <= lines.len(),
        scan(lines.take(k)) is Err,
    ensures
        scan(lines) == scan(lines.take(k)),
    decreases lines.len(),
{
    if k < lines.len() {
        assert(lines.drop_last().take(k) =~= lines.take(k));
        lemma_scan_error_stays(lines.drop_last(), k);
    } else {
        assert(lines.take(k) =~= lines);
    }
}

/// Once a prefix of the program fails, the whole second pass fails the same way.
proof fn lemma_emit_error_stays(
    program: Seq<(nat, InstrModel)>,
    labels: Map<Seq<char>, nat>,
    k: int,
)
    requires
        0 <= k <= program.len(),
        emit(program.take(k), labels) is Err,
    ensures
        emit(program, labels) == emit(program.take(k), labels),
    decreases program.len(),
{
    if k < program.len() {
        assert(program.drop_last().take(k) =~= program.take(k));
        lemma_emit_error_stays(program.drop_last(), labels, k);
    } else {
        assert(program.take(k) =~= program);
    }
}

/// A list of words or an error, as mathematical values.
pub open spec fn listing(r: Result<Vec<String>, AsmError>) -> Result<Seq<Seq<char>>, ErrorModel> {
    match r {
        Ok(w) => Ok(texts(w@)),
        Err(e) => Err(e@),
    }
}

/// What the first pass collects: the program with source lines, the labels,
/// and the number of words.
pub struct Scan {
    pub program: Vec<(usize, Instructions)>,
    pub labels: LabelTable,
    pub words: usize,
}

impl View for Scan {
    type V = ScanModel;

    open spec fn view(&self) -> ScanModel {
        ScanModel {
            words: self.words as nat,
            labels: self.labels@,
            program: self.program@.map_values(|p: (usize, Instructions)| (p.0 as nat, p.1@)),
        }
    }
}

/// Runs the first pass over `src`.
pub fn scan_source(src: &str) -> (r: Result<Scan, AsmError>)
    ensures
        outcome(r) == scan(lines_of(src@)),
        r is Ok ==> r->Ok_0.words <= MAX_WORDS,
{
    let lines = source_lines(src);
    let ghost all = lines_of(src@);
    let mut st = Scan { program: Vec::new(), labels: LabelTable::new(), words: 0 };
    assert(st@.program =~= Seq::<(nat, InstrModel)>::empty());
    assert(all.take(0) =~= Seq::<Seq<char>>::empty());
    let mut i: usize = 0;
    while i < lines.len()
        invariant
            char_rows(lines@) == all,
            all == lines_of(src@),
            i <= lines@.len(),
            scan(all.take(i as int)) == Ok::<ScanModel, ErrorModel>(st@),
            st.words <= MAX_WORDS,
        decreases lines@.len() - i,
    {
        let ghost before = st@;
        assert(all.take(i + 1).drop_last() =~= all.take(i as int));
        assert(all.take(i + 1).last() == lines@[i as int]@);
        let toks = tokenize(&lines[i]);
        assert(toks@.map_values(|t: String| t@) =~= texts(toks@));
        assert(all.take(i + 1).len() == i + 1);
        assert(scan(all.take(i + 1)) == scan_step(before, texts(toks@), (i + 1) as nat));
        match parse_line(&toks, i + 1) {
            Err(e) => {
                proof {
                    lemma_scan_error_stays(all, i + 1);
                }
                return Err(e);
            },
            Ok(SourceLine::Blank) => {},
            Ok(SourceLine::Mark(name)) => {
                st.labels.insert(name, st.words + 1);
            },
            Ok(SourceLine::Op(instr)) => {
                let words = st.words + instr.size();
                if words > MAX_WORDS {
                    proof {
                        lemma_scan_error_stays(all, i + 1);
                    }
                    return Err(AsmError::ProgramTooLarge { found: words, max: MAX_WORDS });
                }
                st.words = words;
                st.program.push((i + 1, instr));
                assert(st@.program =~= before.program.push(((i + 1) as nat, instr@)));
            },
        }
        assert(st@ == scan_step(before, tokens(lines@[i as int]@), (i + 1) as nat)->Ok_0);
        i = i + 1;
    }
    assert(all.take(i as int) =~= all);
    Ok(st)
}

/// Runs the second pass over what the first collected.
pub fn emit_program(st: &Scan) -> (r: Result<Vec<String>, AsmError>)
    ensures
        listing(r) == emit(st@.program, st@.labels),
{
    let ghost prog = st@.program;
    let mut out: Vec<String> = Vec::new();
    let mut j: usize = 0;
    assert(prog.take(0) =~= Seq::<(nat, InstrModel)>::empty());
    assert(texts(out@) =~= Seq::<Seq<char>>::empty());
    while j < st.program.len()
        invariant
            j <= st.program@.len(),
            prog == st@.program,
            emit(prog.take(j as int), st@.labels) == Ok::<Seq<Seq<char>>, ErrorModel>(
                texts(out@),
            ),
        decreases st.program@.len() - j,
    {
        let ghost before = texts(out@);
        assert(prog.take(j + 1).drop_last() =~= prog.take(j as int));
        assert(prog.take(j + 1).last() == prog[j as int]);
        let line = st.program[j].0;
        let instr = &st.program[j].1;
        let words = Instructions::binary(instr);
        let mut k: usize = 0;
        while k < words.len()
            invariant
                k <= words@.len(),
                texts(out@) == before + texts(words@).take(k as int),
            decreases words@.len() - k,
        {
            let ghost prev = texts(out@);
            out.push(words[k].clone());
            assert(texts(out@) =~= prev.push(words@[k as int]@));
            assert(texts(words@).take(k + 1) =~= texts(words@).take(k as int).push(words@[k as int]@));
            assert(texts(out@) =~= before + texts(words@).take(k + 1));
            k = k + 1;
        }
        assert(texts(words@).take(k as int) =~= texts(words@));
        match instr.target() {
            Some(name) => match st.labels.get(name) {
                Some(address) => {
                    let ghost mid = texts(out@);
                    out.push(word_of(address));
                    assert(texts(out@) =~= mid.push(word8(address as nat)));
                    assert(texts(out@) =~= before + encoding(instr@, address as nat));
                },
                None => {
                    proof {
                        lemma_emit_error_stays(prog, st@.labels, j + 1);
                    }
                    return Err(AsmError::UndefinedLabel { line, label: name.clone() });
                },
            },
            None => {},
        }
        j = j + 1;
    }
    assert(prog.take(j as int) =~= prog);
    Ok(out)
}

/// Assembles the program text `src` into its binary words, one 8-character
/// string of `0` and `1` per word, ending with the halt word.
pub fn assemble(src: &str) -> (r: Result<Vec<String>, AsmError>)
    ensures
        listing(r) == assembled(src@),
{
    let st = match scan_source(src) {
        Ok(st) => st,
        Err(e) => {
            return Err(e);
        },
    };
    let mut out = match emit_program(&st) {
        Ok(out) => out,
        Err(e) => {
            return Err(e);
        },
    };
    let ghost body = texts(out@);
    out.push(String::from_str("11001111"));
    assert(texts(out@) =~= body.push(end_word()));
    Ok(out)
}

} // verus!
