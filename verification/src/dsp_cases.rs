//! Recorded DSP test cases: their file format, and the registers a case starts from and the
//! ones it expects.
use crate::dsp_ins::{Ins, Opcode};
use crate::dsp::{stack4_items, stack8_items, with_high16, with_low16, Acc40, Product, Reg, Registers};
use vstd::prelude::*;

verus! {

/// The registers that a case lists: the 31 registers other than the configuration register,
/// in index order, where the value given for the loop stack is not written.
pub open spec fn case_registers(r: Registers, arr: [u16; 31]) -> bool {
    &&& r.pc == 0
    &&& r.addressing@ == seq![arr[0], arr[1], arr[2], arr[3]]
    &&& r.indexing@ == seq![arr[4], arr[5], arr[6], arr[7]]
    &&& r.wrapping@ == seq![arr[8], arr[9], arr[10], arr[11]]
    &&& stack8_items(r.call_stack) == seq![arr[12]]
    &&& stack4_items(r.data_stack) == seq![arr[13]]
    &&& stack4_items(r.loop_stack) == Seq::<u16>::empty()
    &&& stack4_items(r.loop_count) == seq![arr[15]]
    &&& r.acc40@ == seq![
        Acc40 { low: arr[27], mid: arr[29], high: arr[16] as u8 },
        Acc40 { low: arr[28], mid: arr[30], high: arr[17] as u8 },
    ]
    &&& r.config == 0
    &&& r.status.bits == arr[18] & !0x100u16
    &&& r.product == (Product { low: arr[19], mid1: arr[20], high: arr[21] as u8, mid2: arr[22] })
    &&& r.acc32@ == seq![with_high16(with_low16(0, arr[23]), arr[25]), with_high16(with_low16(0, arr[24]), arr[26])]
}

/// The registers a case lists, written in index order over the registers after reset.
pub fn regs(arr: [u16; 31]) -> (r: Registers)
    ensures
        case_registers(r, arr),
{
    let mut r = Registers::new();
    r.set(Reg::Addr0, arr[0]);
    r.set(Reg::Addr1, arr[1]);
    r.set(Reg::Addr2, arr[2]);
    r.set(Reg::Addr3, arr[3]);
    r.set(Reg::Index0, arr[4]);
    r.set(Reg::Index1, arr[5]);
    r.set(Reg::Index2, arr[6]);
    r.set(Reg::Index3, arr[7]);
    r.set(Reg::Wrap0, arr[8]);
    r.set(Reg::Wrap1, arr[9]);
    r.set(Reg::Wrap2, arr[10]);
    r.set(Reg::Wrap3, arr[11]);
    r.set(Reg::CallStack, arr[12]);
    r.set(Reg::DataStack, arr[13]);
    r.set(Reg::LoopCount, arr[15]);
    r.set(Reg::Acc40High0, arr[16]);
    r.set(Reg::Acc40High1, arr[17]);
    r.set(Reg::Status, arr[18]);
    r.set(Reg::ProdLow, arr[19]);
    r.set(Reg::ProdMid1, arr[20]);
    r.set(Reg::ProdHigh, arr[21]);
    r.set(Reg::ProdMid2, arr[22]);
    r.set(Reg::Acc32Low0, arr[23]);
    r.set(Reg::Acc32Low1, arr[24]);
    r.set(Reg::Acc32High0, arr[25]);
    r.set(Reg::Acc32High1, arr[26]);
    r.set(Reg::Acc40Low0, arr[27]);
    r.set(Reg::Acc40Low1, arr[28]);
    r.set(Reg::Acc40Mid0, arr[29]);
    r.set(Reg::Acc40Mid1, arr[30]);
    assert(r.addressing@ =~= seq![arr[0], arr[1], arr[2], arr[3]]);
    assert(r.indexing@ =~= seq![arr[4], arr[5], arr[6], arr[7]]);
    assert(r.wrapping@ =~= seq![arr[8], arr[9], arr[10], arr[11]]);
    assert(r.acc32@ =~= seq![with_high16(with_low16(0, arr[23]), arr[25]), with_high16(with_low16(0, arr[24]), arr[26])]);
    assert(stack8_items(r.call_stack) =~= seq![arr[12]]);
    assert(stack4_items(r.data_stack) =~= seq![arr[13]]);
    assert(stack4_items(r.loop_count) =~= seq![arr[15]]);
    assert(r.acc40@ =~= seq![
        Acc40 { low: arr[27], mid: arr[29], high: arr[16] as u8 },
        Acc40 { low: arr[28], mid: arr[30], high: arr[17] as u8 },
    ]);
    assert(r.status.bits == arr[18] & !0x100u16);
    assert(r.product == (Product { low: arr[19], mid1: arr[20], high: arr[21] as u8, mid2: arr[22] }));
    r
}

/// One recorded case: the code it runs, and the registers it expects and starts from.
#[derive(Debug, Clone, PartialEq, Eq)]
pub struct TestCase {
    pub instructions: Vec<u16>,
    pub expected: [u16; 31],
    pub initial: [u16; 31],
}

impl TestCase {
    /// The registers the case expects after running.
    pub fn expected_regs(&self) -> (r: Registers)
        ensures
            case_registers(r, self.expected),
    {
        regs(self.expected)
    }

    /// The registers the case starts from.
    pub fn initial_regs(&self) -> (r: Registers)
        ensures
            case_registers(r, self.initial),
    {
        regs(self.initial)
    }
}

/// The little-endian 16-bit word at `i` of `b`.
pub open spec fn le_word(b: Seq<u8>, i: int) -> u16 {
    (b[i] + b[i + 1] * 256) as u16
}

/// The `n` little-endian words of `b` from byte `start` on.
pub open spec fn le_words(b: Seq<u8>, start: int, n: int) -> Seq<u16> {
    Seq::new(n as nat, |k: int| le_word(b, start + 2 * k))
}

/// The size in bytes of a case whose code is `code_len` words long.
pub open spec fn case_size(code_len: int) -> int {
    2 * code_len + 124
}

/// Whether `c` is the case stored from byte `start` of `b`, with `code_len` words of code.
pub open spec fn case_at(b: Seq<u8>, start: int, code_len: int, c: TestCase) -> bool {
    &&& c.instructions@ == le_words(b, start, code_len)
    &&& c.expected@ == le_words(b, start + 2 * code_len, 31)
    &&& c.initial@ == le_words(b, start + 2 * code_len + 62, 31)
}

/// A file of recorded cases.
#[derive(Debug, Clone, PartialEq, Eq)]
pub struct TestFile {
    pub cases: Vec<TestCase>,
}

/// `n` little-endian words of `b` from byte `start` on.
fn read_words(b: &[u8], start: usize, n: usize) -> (r: Vec<u16>)
    requires
        start + 2 * n <= b@.len(),
    ensures
        r@ == le_words(b@, start as int, n as int),
{
    let blen = b.len();
    let mut r: Vec<u16> = Vec::new();
    let mut k: usize = 0;
    while k < n
        invariant
            k <= n,
            blen == b@.len(),
            start + 2 * n <= b@.len(),
            r@ =~= le_words(b@, start as int, n as int).take(k as int),
        decreases n - k,
    {
        let lo = b[start + 2 * k] as u16;
        let hi = b[start + 2 * k + 1] as u16;
        r.push(lo + hi * 256);
        k += 1;
        assert(r@ =~= le_words(b@, start as int, n as int).take(k as int));
    }
    assert(r@ =~= le_words(b@, start as int, n as int));
    r
}

/// 31 little-endian words of `b` from byte `start` on.
fn read_registers(b: &[u8], start: usize) -> (r: [u16; 31])
    requires
        start + 62 <= b@.len(),
    ensures
        r@ == le_words(b@, start as int, 31),
{
    let blen = b.len();
    let mut r = [0u16; 31];
    let mut k: usize = 0;
    while k < 31
        invariant
            k <= 31,
            blen == b@.len(),
            start + 62 <= b@.len(),
            r@.len() == 31,
            forall|j: int| 0 <= j < k ==> #[trigger] r@[j] == le_word(b@, start + 2 * j),
        decreases 31 - k,
    {
        let lo = b[start + 2 * k] as u16;
        let hi = b[start + 2 * k + 1] as u16;
        r[k] = lo + hi * 256;
        k += 1;
    }
    assert(r@ =~= le_words(b@, start as int, 31));
    r
}

impl TestFile {
    /// Reads a file of cases: a little-endian 16-bit length in bytes of the code of each case,
    /// then cases until the end, each its code, the 31 registers it expects and the 31 it
    /// starts from, all little-endian words. Bytes after the last whole case are ignored.
    /// `None` where the file is shorter than its length word or the length is odd.
    pub fn parse(bytes: &[u8]) -> (r: Option<TestFile>)
        ensures
            r is None <==> (bytes@.len() < 2 || le_word(bytes@, 0) % 2 != 0),
            r matches Some(f) ==> {
                let code_len = le_word(bytes@, 0) / 2;
                &&& f.cases@.len() == (bytes@.len() - 2) / case_size(code_len as int)
                &&& forall|i: int| 0 <= i < f.cases@.len() ==> case_at(bytes@, 2 + i * case_size(code_len as int), code_len as int, #[trigger] f.cases@[i])
            },
    {
        if bytes.len() < 2 {
            return None;
        }
        let case_length = bytes[0] as u16 + bytes[1] as u16 * 256;
        if case_length % 2 != 0 {
            return None;
        }
        let code_len = (case_length / 2) as usize;
        let size = 2 * code_len + 124;
        let ghost total = (bytes@.len() - 2) / (size as int);
        let mut cases: Vec<TestCase> = Vec::new();
        let mut start: usize = 2;
        assert(2 + cases@.len() * size == 2) by (nonlinear_arith)
            requires
                cases@.len() == 0;
        while start <= bytes.len() && bytes.len() - start >= size
            invariant
                2 <= start <= bytes@.len(),
                size == case_size(code_len as int),
                code_len == le_word(bytes@, 0) / 2,
                start == 2 + cases@.len() * size,
                forall|i: int| 0 <= i < cases@.len() ==> case_at(bytes@, 2 + i * size, code_len as int, #[trigger] cases@[i]),
            decreases bytes@.len() - start,
        {
            let instructions = read_words(bytes, start, code_len);
            let expected = read_registers(bytes, start + 2 * code_len);
            let initial = read_registers(bytes, start + 2 * code_len + 62);
            let c = TestCase { instructions, expected, initial };
            proof {
                assert(case_at(bytes@, 2 + cases@.len() * size, code_len as int, c));
            }
            cases.push(c);
            assert(start + size == 2 + cases@.len() * size) by (nonlinear_arith)
                requires
                    start == 2 + (cases@.len() - 1) * size;
            start = start + size;
        }
        proof {
            let n = cases@.len() as int;
            let rest = bytes@.len() - start;
            assert(bytes@.len() - 2 == n * size + rest);
            assert(0 <= rest < size);
            vstd::arithmetic::div_mod::lemma_fundamental_div_mod_converse(bytes@.len() - 2, size as int, n, rest);
        }
        Some(TestFile { cases })
    }
}

/// The instructions that `words` holds, one or two words each as its opcode asks; `None`
/// where the last instruction lacks its second word.
pub open spec fn spec_parse_code(words: Seq<u16>) -> Option<Seq<Ins>>
    decreases words.len(),
{
    if words.len() == 0 {
        Some(Seq::<Ins>::empty())
    } else if Opcode::spec_new(words[0]).spec_needs_extra() {
        if words.len() < 2 {
            None
        } else {
            match spec_parse_code(words.subrange(2, words.len() as int)) {
                Some(rest) => Some(seq![Ins { base: words[0], extra: words[1] }] + rest),
                None => None,
            }
        }
    } else {
        match spec_parse_code(words.subrange(1, words.len() as int)) {
            Some(rest) => Some(seq![Ins { base: words[0], extra: 0 }] + rest),
            None => None,
        }
    }
}

/// Splits code into instructions.
pub fn parse_code(words: &[u16]) -> (r: Vec<Ins>)
    requires
        spec_parse_code(words@) is Some,
    ensures
        spec_parse_code(words@) == Some(r@),
{
    let mut ins: Vec<Ins> = Vec::new();
    let mut i: usize = 0;
    let n = words.len();
    assert(words@.subrange(0, n as int) =~= words@);
    while i < n
        invariant
            i <= n,
            n == words@.len(),
            spec_parse_code(words@.subrange(i as int, n as int)) is Some,
            spec_parse_code(words@) == Some(ins@ + spec_parse_code(words@.subrange(i as int, n as int))->Some_0),
        decreases n - i,
    {
        let ghost rest = words@.subrange(i as int, n as int);
        assert(rest[0] == words@[i as int]);
        let opcode = Opcode::new(words[i]);
        if opcode.needs_extra() {
            assert(rest.len() >= 2);
            assert(rest.subrange(2, rest.len() as int) =~= words@.subrange(i + 2, n as int));
            let one = Ins::with_extra(words[i], words[i + 1]);
            ins.push(one);
            i = i + 2;
        } else {
            assert(rest.subrange(1, rest.len() as int) =~= words@.subrange(i + 1, n as int));
            let one = Ins::new(words[i]);
            ins.push(one);
            i = i + 1;
        }
        proof {
            let tail = spec_parse_code(words@.subrange(i as int, n as int))->Some_0;
            assert(ins@ + tail =~= ins@.drop_last() + (seq![ins@.last()] + tail));
        }
    }
    assert(words@.subrange(n as int, n as int) =~= Seq::<u16>::empty());
    assert(ins@ + Seq::<Ins>::empty() =~= ins@);
    ins
}

} // verus!
