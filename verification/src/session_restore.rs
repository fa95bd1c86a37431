//! The session-restore spool: a pluggable, memory-bounded buffer of a
//! session's terminal output, replayed to a reattaching client.
//!
//! A spool is built once per session from a human-readable policy string
//! ("0", "512KB", "5MB", "2GB"). Budget 0 selects the signal-only spool,
//! which retains nothing; a positive budget selects the memory spool, a
//! byte-granular FIFO window over everything the session printed.

use vstd::prelude::*;
use vstd::slice::slice_to_vec;
use vstd::string::StrSliceExecFns;
use vstd::string::StringExecFns;

verus! {

use crate::text::trim;
use crate::text::trimmed;

/// Geometry of the controlling terminal, replaced wholesale on resize.
#[derive(Clone, Copy, Debug, PartialEq, Eq, Structural)]
pub struct TtySize {
    pub rows: u16,
    pub cols: u16,
    pub xpixel: u16,
    pub ypixel: u16,
}

/// A malformed restore-policy string, carrying the offending input.
#[derive(Debug)]
pub struct ConfigParseError {
    pub input: String,
}

impl ConfigParseError {
    /// A plain-text report naming the offending input and the accepted formats.
    pub fn message(&self) -> (m: String)
        ensures
            m@ == "Invalid memory size format: "@ + self.input@
                + ". Use formats like '5MB', '1GB', '512KB', or '0'"@,
    {
        let mut m = String::from_str("Invalid memory size format: ");
        m.append(self.input.as_str());
        m.append(". Use formats like '5MB', '1GB', '512KB', or '0'");
        proof {
            assert(m@ =~= "Invalid memory size format: "@ + self.input@
                + ". Use formats like '5MB', '1GB', '512KB', or '0'"@);
        }
        m
    }
}

pub open spec fn is_digit_char(c: char) -> bool {
    48 <= c as u32 <= 57
}

pub open spec fn digit_val(c: char) -> int {
    c as u32 - 48
}

pub open spec fn all_digits(s: Seq<char>) -> bool {
    forall|i: int| 0 <= i < s.len() ==> is_digit_char(s[i])
}

/// The number denoted by a sequence of decimal digits, most significant first.
pub open spec fn digits_value(s: Seq<char>) -> int
    decreases s.len(),
{
    if s.len() == 0 {
        0
    } else {
        digits_value(s.drop_last()) * 10 + digit_val(s.last())
    }
}

/// Bytes per unit: K and M and G are binary (powers of 1024); 0 marks an
/// unsupported unit letter.
pub open spec fn unit_scale(c: char) -> int {
    if c == 'K' || c == 'k' {
        1024
    } else if c == 'M' || c == 'm' {
        1048576
    } else if c == 'G' || c == 'g' {
        1073741824
    } else {
        0
    }
}

/// The byte budget a restore-policy string denotes, if any.
///
/// The grammar, once surrounding whitespace is removed: the literal "0",
/// or a non-empty run of decimal digits followed by a unit in {KB, MB,
/// GB}, case-insensitive. Anything else denotes no budget.
pub open spec fn parsed_budget(s: Seq<char>) -> Option<int> {
    let t = trimmed(s);
    let m = t.len() as int;
    if m == 1 && t[0] == '0' {
        Some(0)
    } else if m >= 3 && (t[m - 1] == 'B' || t[m - 1] == 'b') && unit_scale(t[m - 2]) > 0
        && all_digits(t.subrange(0, m - 2)) {
        Some(digits_value(t.subrange(0, m - 2)) * unit_scale(t[m - 2]))
    } else {
        None
    }
}

/// Parsing is whitespace-tolerant: a policy string denotes exactly what
/// its trimmed form denotes.
pub proof fn lemma_parse_whitespace_tolerant(s1: Seq<char>, s2: Seq<char>)
    requires
        trimmed(s1) == trimmed(s2),
    ensures
        parsed_budget(s1) == parsed_budget(s2),
{
}

/// Letter case never changes whether a character closes the unit ('B').
proof fn lemma_eq_ci_b_char(a: char, b: char)
    requires
        crate::text::eq_ascii_ci(a, b),
    ensures
        (a == 'B' || a == 'b') == (b == 'B' || b == 'b'),
{
}

/// Letter case never changes a unit letter's weight.
proof fn lemma_eq_ci_unit_scale(a: char, b: char)
    requires
        crate::text::eq_ascii_ci(a, b),
    ensures
        unit_scale(a) == unit_scale(b),
{
}

/// Letter case never changes whether a character is a digit, nor which.
proof fn lemma_eq_ci_digit(a: char, b: char)
    requires
        crate::text::eq_ascii_ci(a, b),
    ensures
        is_digit_char(a) == is_digit_char(b),
        is_digit_char(a) ==> a == b,
{
}

/// Parsing is case-insensitive: two policy strings that agree up to ASCII
/// letter case denote the same budget.
pub proof fn lemma_parse_case_insensitive(s1: Seq<char>, s2: Seq<char>)
    requires
        crate::text::seq_eq_ascii_ci(s1, s2),
    ensures
        parsed_budget(s1) == parsed_budget(s2),
{
    crate::text::lemma_trimmed_ci(s1, s2);
    let t1 = trimmed(s1);
    let t2 = trimmed(s2);
    let m = t1.len() as int;
    if m == 1 {
        assert(crate::text::eq_ascii_ci(t1[0], t2[0]));
        lemma_eq_ci_digit(t1[0], t2[0]);
        assert((t1[0] == '0') == (t2[0] == '0'));
    } else if m >= 3 {
        let a1 = t1[m - 1];
        let a2 = t2[m - 1];
        let u1 = t1[m - 2];
        let u2 = t2[m - 2];
        assert(crate::text::eq_ascii_ci(a1, a2));
        assert(crate::text::eq_ascii_ci(u1, u2));
        lemma_eq_ci_b_char(a1, a2);
        lemma_eq_ci_unit_scale(u1, u2);
        let d1 = t1.subrange(0, m - 2);
        let d2 = t2.subrange(0, m - 2);
        assert forall|i: int| 0 <= i < d1.len() implies crate::text::eq_ascii_ci(
            d1[i],
            d2[i],
        ) by {
            assert(d1[i] == t1[i]);
            assert(d2[i] == t2[i]);
        }
        assert(all_digits(d1) == all_digits(d2)) by {
            if all_digits(d1) {
                assert forall|i: int| 0 <= i < d2.len() implies is_digit_char(d2[i]) by {
                    lemma_eq_ci_digit(d1[i], d2[i]);
                }
            } else {
                let w = choose|i: int| 0 <= i < d1.len() && !is_digit_char(d1[i]);
                lemma_eq_ci_digit(d1[w], d2[w]);
            }
        }
        if all_digits(d1) {
            assert(d1 =~= d2) by {
                assert forall|i: int| 0 <= i < d1.len() implies d1[i] == d2[i] by {
                    lemma_eq_ci_digit(d1[i], d2[i]);
                }
            }
        }
    }
}

proof fn lemma_digits_value_nonneg(s: Seq<char>)
    requires
        all_digits(s),
    ensures
        digits_value(s) >= 0,
    decreases s.len(),
{
    if s.len() > 0 {
        lemma_digits_value_nonneg(s.drop_last());
    }
}

/// A digit run is worth at least any of its prefixes.
proof fn lemma_digits_prefix_le(s: Seq<char>, k: int)
    requires
        all_digits(s),
        0 <= k <= s.len(),
    ensures
        digits_value(s.subrange(0, k)) <= digits_value(s),
    decreases s.len() - k,
{
    if k == s.len() {
        assert(s.subrange(0, k) =~= s);
    } else {
        lemma_digits_prefix_le(s.drop_last(), k);
        assert(s.drop_last().subrange(0, k) =~= s.subrange(0, k));
        lemma_digits_value_nonneg(s.drop_last());
    }
}

fn parse_error(s: &str) -> (e: ConfigParseError)
    ensures
        e.input@ == s@,
{
    ConfigParseError { input: s.to_owned() }
}

/// Parses a restore-policy string ("0", "512KB", "5MB", "2GB") into a byte
/// budget. A magnitude whose byte count does not fit in `usize` is rejected
/// rather than wrapped.
pub fn parse_memory_size(size_str: &str) -> (r: Result<usize, ConfigParseError>)
    ensures
        r is Ok <==> (parsed_budget(size_str@) is Some && parsed_budget(size_str@)->0
            <= usize::MAX as int),
        r is Ok ==> r->Ok_0 as int == parsed_budget(size_str@)->0,
        r is Err ==> r->Err_0.input@ == size_str@,
{
    let t = trim(size_str);
    let m = t.unicode_len();
    if m == 1 && t.get_char(0) == '0' {
        return Ok(0);
    }
    if m < 3 {
        return Err(parse_error(size_str));
    }
    let last = t.get_char(m - 1);
    if !(last == 'B' || last == 'b') {
        return Err(parse_error(size_str));
    }
    let unit = t.get_char(m - 2);
    let scale: usize = if unit == 'K' || unit == 'k' {
        1024
    } else if unit == 'M' || unit == 'm' {
        1048576
    } else if unit == 'G' || unit == 'g' {
        1073741824
    } else {
        return Err(parse_error(size_str));
    };
    let digits_len = m - 2;
    let mut i: usize = 0;
    let mut value: usize = 0;
    while i < digits_len
        invariant
            t@ == trimmed(size_str@),
            m == t@.len(),
            digits_len == m - 2,
            3 <= m,
            i <= digits_len,
            scale as int == unit_scale(t@[m - 2]),
            scale >= 1024,
            all_digits(t@.subrange(0, i as int)),
            value as int == digits_value(t@.subrange(0, i as int)),
        decreases digits_len - i,
    {
        let c = t.get_char(i);
        let cv = c as u32;
        if cv < 48 || cv > 57 {
            proof {
                assert(t@.subrange(0, digits_len as int)[i as int] == t@[i as int]);
            }
            return Err(parse_error(size_str));
        }
        let d = (cv - 48) as usize;
        if value > (usize::MAX - d) / 10 {
            proof {
                let prefix = t@.subrange(0, i + 1);
                assert(prefix.drop_last() =~= t@.subrange(0, i as int));
                assert(value * 10 + d > usize::MAX) by {
                    let rest = (usize::MAX - d) as int;
                    assert(rest == 10 * (rest / 10) + rest % 10);
                    assert(0 <= rest % 10 < 10);
                };
                assert(digits_value(prefix) > usize::MAX as int);
                let whole = t@.subrange(0, digits_len as int);
                if all_digits(whole) {
                    lemma_digits_prefix_le(whole, i + 1);
                    assert(whole.subrange(0, i + 1) =~= prefix);
                    lemma_digits_value_nonneg(whole);
                    let sc = unit_scale(t@[m - 2]);
                    assert(digits_value(whole) * sc >= digits_value(whole) * 1) by (nonlinear_arith)
                        requires
                            digits_value(whole) >= 0,
                            sc >= 1024,
                    ;
                }
            }
            return Err(parse_error(size_str));
        }
        proof {
            let prefix = t@.subrange(0, i + 1);
            assert(prefix.drop_last() =~= t@.subrange(0, i as int));
            assert(prefix.last() == t@[i as int]);
            assert(value * 10 + d <= usize::MAX) by {
                let rest = (usize::MAX - d) as int;
                assert(rest == 10 * (rest / 10) + rest % 10);
                assert(0 <= rest % 10 < 10);
            };
        }
        value = value * 10 + d;
        i += 1;
    }
    proof {
        assert(t@.subrange(0, digits_len as int) =~= t@.subrange(0, i as int));
    }
    let limit = usize::MAX / scale;
    if value > limit {
        proof {
            let digits = t@.subrange(0, digits_len as int);
            assert(usize::MAX as int == scale * (usize::MAX as int / scale as int) + usize::MAX as int
                % scale as int);
            assert(0 <= (usize::MAX as int % (scale as int)) < (scale as int));
            assert(value * scale > usize::MAX) by (nonlinear_arith)
                requires
                    value as int > usize::MAX as int / scale as int,
                    usize::MAX as int == scale as int * (usize::MAX as int / scale as int)
                        + usize::MAX as int % scale as int,
                    0 <= (usize::MAX as int % (scale as int)) < (scale as int),
                    scale >= 1024,
            ;
        }
        return Err(parse_error(size_str));
    }
    proof {
        assert(usize::MAX as int == scale * (usize::MAX as int / scale as int) + usize::MAX as int
            % scale as int);
        assert(0 <= (usize::MAX as int % (scale as int)) < (scale as int));
        assert(value * scale <= usize::MAX) by (nonlinear_arith)
            requires
                value as int <= usize::MAX as int / scale as int,
                usize::MAX as int == scale as int * (usize::MAX as int / scale as int)
                    + usize::MAX as int % scale as int,
                0 <= (usize::MAX as int % (scale as int)) < (scale as int),
                scale >= 1,
        ;
    }
    Ok(value * scale)
}

/// The last `bound` bytes of `s`: what a FIFO buffer of capacity `bound`
/// holds after ingesting `s` in order and evicting oldest-first.
pub open spec fn fifo_trim(s: Seq<u8>, bound: nat) -> Seq<u8> {
    if s.len() <= bound {
        s
    } else {
        s.subrange(s.len() - bound, s.len() as int)
    }
}

/// Trimming in two steps is the same as trimming the whole concatenation:
/// eviction is FIFO truncation, not arbitrary drop.
pub proof fn lemma_fifo_trim_twice(a: Seq<u8>, b: Seq<u8>, bound: nat)
    ensures
        fifo_trim(fifo_trim(a, bound) + b, bound) == fifo_trim(a + b, bound),
{
    if a.len() <= bound {
        assert(fifo_trim(a, bound) + b =~= a + b);
    } else {
        let fa = a.subrange(a.len() - bound, a.len() as int);
        if b.len() == 0 {
            assert(fa + b =~= fa);
            assert(fifo_trim(fa + b, bound) =~= fifo_trim(a + b, bound));
        } else {
            assert(fifo_trim(fa + b, bound) =~= fifo_trim(a + b, bound));
        }
    }
}

/// The spool interface: a per-session buffer of terminal output with a
/// fixed byte budget. `restore_buffer` never returns more than the budget,
/// and `process` keeps exactly the most recent bytes within it.
pub trait SessionSpool: Sized {
    /// The byte budget: the most bytes this spool ever retains.
    spec fn budget(&self) -> nat;

    /// The bytes this spool would replay to a reattaching client.
    spec fn contents(&self) -> Seq<u8>;

    /// Structural well-formedness, established by construction.
    spec fn inv(&self) -> bool;

    /// Notes a geometry change. Never fails and never alters the buffer.
    fn resize(&mut self, size: TtySize)
        requires
            old(self).inv(),
        ensures
            final(self).inv(),
            final(self).budget() == old(self).budget(),
            final(self).contents() == old(self).contents(),
    ;

    /// The byte sequence to replay to a reattaching client, in original
    /// order. Read-only: repeated calls return the same bytes.
    fn restore_buffer(&self) -> (r: Vec<u8>)
        requires
            self.inv(),
        ensures
            r@ == self.contents(),
            r@.len() <= self.budget(),
    ;

    /// Ingests a chunk of raw output, evicting oldest-first down to the
    /// budget. Content is not interpreted; empty input changes nothing.
    fn process(&mut self, bytes: &[u8])
        requires
            old(self).inv(),
        ensures
            final(self).inv(),
            final(self).budget() == old(self).budget(),
            final(self).contents() == fifo_trim(old(self).contents() + bytes@, old(self).budget()),
    ;
}

/// A spool that retains nothing: reattaching clients get an empty restore
/// sequence, and resize notifications are delivered independently of it.
pub struct SignalOnlySpool;

impl SessionSpool for SignalOnlySpool {
    open spec fn budget(&self) -> nat {
        0
    }

    open spec fn contents(&self) -> Seq<u8> {
        Seq::empty()
    }

    open spec fn inv(&self) -> bool {
        true
    }

    fn resize(&mut self, size: TtySize) {
    }

    fn restore_buffer(&self) -> (r: Vec<u8>) {
        Vec::new()
    }

    fn process(&mut self, bytes: &[u8]) {
        proof {
            assert(fifo_trim(self.contents() + bytes@, self.budget()) =~= Seq::<u8>::empty());
        }
    }
}

/// A memory-backed spool holding a FIFO window, of at most `max_size`
/// bytes, over the session's output.
pub struct MemorySpool {
    buffer: Vec<u8>,
    max_size: usize,
    current_size: usize,
}

impl MemorySpool {
    /// A fresh, empty spool with the given byte budget. A budget of 0 is
    /// allowed and behaves like the signal-only spool, though the factory
    /// never builds that combination.
    pub fn new(max_size: usize) -> (s: Self)
        ensures
            s.inv(),
            s.budget() == max_size,
            s.contents() == Seq::<u8>::empty(),
    {
        MemorySpool { buffer: Vec::new(), max_size, current_size: 0 }
    }
}

impl SessionSpool for MemorySpool {
    closed spec fn budget(&self) -> nat {
        self.max_size as nat
    }

    closed spec fn contents(&self) -> Seq<u8> {
        self.buffer@
    }

    closed spec fn inv(&self) -> bool {
        self.current_size == self.buffer@.len() && self.buffer@.len() <= self.max_size
    }

    fn resize(&mut self, size: TtySize) {
    }

    fn restore_buffer(&self) -> (r: Vec<u8>) {
        slice_to_vec(self.buffer.as_slice())
    }

    fn process(&mut self, bytes: &[u8]) {
        if bytes.len() == 0 {
            proof {
                assert(self.contents() + bytes@ =~= self.contents());
            }
            return ;
        }
        let ghost orig: Seq<u8> = self.buffer@;
        let ghost full: Seq<u8> = orig + bytes@;
        let mut i: usize = 0;
        while i < bytes.len()
            invariant
                i <= bytes@.len(),
                self.buffer@ == orig + bytes@.subrange(0, i as int),
                self.current_size == self.buffer@.len(),
                self.max_size == old(self).max_size,
            decreases bytes@.len() - i,
        {
            let b = bytes[i];
            self.buffer.push(b);
            proof {
                vstd::std_specs::vec::axiom_spec_len(&self.buffer);
            }
            self.current_size = self.current_size + 1;
            i += 1;
        }
        proof {
            assert(bytes@.subrange(0, i as int) =~= bytes@);
            assert(full.subrange(0, full.len() as int) =~= full);
        }
        while self.current_size > self.max_size && self.buffer.len() > 0
            invariant
                self.current_size == self.buffer@.len(),
                self.current_size <= full.len(),
                self.max_size == old(self).max_size,
                self.buffer@ == full.subrange(
                    full.len() - self.current_size,
                    full.len() as int,
                ),
                self.current_size >= self.max_size || self.current_size == full.len(),
            decreases self.current_size,
        {
            self.buffer.remove(0);
            self.current_size = self.current_size - 1;
            proof {
                assert(full.subrange(
                    full.len() - (self.current_size + 1),
                    full.len() as int,
                ).remove(0) =~= full.subrange(full.len() - self.current_size, full.len() as int));
            }
        }
        proof {
            if full.len() <= self.max_size {
                assert(self.buffer@ =~= full);
            }
            assert(self.buffer@ == fifo_trim(old(self).contents() + bytes@, old(self).budget()));
        }
    }
}

/// The concatenation, in order, of a sequence of ingested chunks.
pub open spec fn concat_chunks(chunks: Seq<Seq<u8>>) -> Seq<u8>
    decreases chunks.len(),
{
    if chunks.len() == 0 {
        Seq::empty()
    } else {
        concat_chunks(chunks.drop_last()) + chunks.last()
    }
}

/// The contents of an initially empty spool of budget `bound` after
/// processing each chunk in order, as `SessionSpool::process` promises.
pub open spec fn spool_contents_after(chunks: Seq<Seq<u8>>, bound: nat) -> Seq<u8>
    decreases chunks.len(),
{
    if chunks.len() == 0 {
        Seq::empty()
    } else {
        fifo_trim(spool_contents_after(chunks.drop_last(), bound) + chunks.last(), bound)
    }
}

/// After any sequence of `process` calls on a fresh bounded spool of budget
/// `bound`, the restore buffer is exactly the last `bound` bytes of the
/// concatenation of everything ingested, and never longer than `bound`.
pub proof fn lemma_bounded_spool_fifo(chunks: Seq<Seq<u8>>, bound: nat)
    ensures
        spool_contents_after(chunks, bound) == fifo_trim(concat_chunks(chunks), bound),
        spool_contents_after(chunks, bound).len() <= bound,
    decreases chunks.len(),
{
    if chunks.len() > 0 {
        lemma_bounded_spool_fifo(chunks.drop_last(), bound);
        lemma_fifo_trim_twice(concat_chunks(chunks.drop_last()), chunks.last(), bound);
    }
}

/// The signal-only spool retains nothing: its contents are empty at all
/// times, and stay empty across any `process` call.
pub proof fn lemma_signal_only_spool_empty(s: SignalOnlySpool, bytes: Seq<u8>)
    ensures
        s.contents() == Seq::<u8>::empty(),
        fifo_trim(s.contents() + bytes, s.budget()) == Seq::<u8>::empty(),
{
    assert(fifo_trim(s.contents() + bytes, s.budget()) =~= Seq::<u8>::empty());
}

/// Two consecutive `restore_buffer` calls with no intervening `process`
/// return identical bytes: the result is a pure function of the contents,
/// and `restore_buffer` itself never mutates the spool.
pub proof fn lemma_restore_idempotent<S: SessionSpool>(s: S, r1: Seq<u8>, r2: Seq<u8>)
    requires
        r1 == s.contents(),
        r2 == s.contents(),
    ensures
        r1 == r2,
{
}

/// The spool variants, dispatched by tag. The policy decides the variant:
/// budget 0 selects the signal-only spool, a positive budget the memory
/// spool.
pub enum Spool {
    SignalOnly(SignalOnlySpool),
    Memory(MemorySpool),
}

impl SessionSpool for Spool {
    open spec fn budget(&self) -> nat {
        match self {
            Spool::SignalOnly(s) => s.budget(),
            Spool::Memory(s) => s.budget(),
        }
    }

    open spec fn contents(&self) -> Seq<u8> {
        match self {
            Spool::SignalOnly(s) => s.contents(),
            Spool::Memory(s) => s.contents(),
        }
    }

    open spec fn inv(&self) -> bool {
        match self {
            Spool::SignalOnly(s) => s.inv(),
            Spool::Memory(s) => s.inv(),
        }
    }

    fn resize(&mut self, size: TtySize) {
        match self {
            Spool::SignalOnly(s) => s.resize(size),
            Spool::Memory(s) => s.resize(size),
        }
    }

    fn restore_buffer(&self) -> (r: Vec<u8>) {
        match self {
            Spool::SignalOnly(s) => s.restore_buffer(),
            Spool::Memory(s) => s.restore_buffer(),
        }
    }

    fn process(&mut self, bytes: &[u8]) {
        match self {
            Spool::SignalOnly(s) => s.process(bytes),
            Spool::Memory(s) => s.process(bytes),
        }
    }
}

/// Builds a session's spool from its restore-policy string: budget 0 gives
/// the signal-only spool, a positive budget an empty memory spool of that
/// capacity; a malformed policy builds nothing. The terminal geometry is
/// not consulted by either variant; it is accepted for variants to come.
pub fn new(restore_config: &str, _size: &TtySize) -> (r: Result<Spool, ConfigParseError>)
    ensures
        r is Ok <==> (parsed_budget(restore_config@) is Some && parsed_budget(restore_config@)->0
            <= usize::MAX as int),
        r is Ok ==> r->Ok_0.inv(),
        r is Ok ==> r->Ok_0.contents() == Seq::<u8>::empty(),
        r is Ok ==> r->Ok_0.budget() as int == parsed_budget(restore_config@)->0,
        r is Ok ==> (r->Ok_0 is Memory <==> parsed_budget(restore_config@)->0 > 0),
        r is Err ==> r->Err_0.input@ == restore_config@,
{
    match parse_memory_size(restore_config) {
        Ok(0) => Ok(Spool::SignalOnly(SignalOnlySpool)),
        Ok(max_size) => Ok(Spool::Memory(MemorySpool::new(max_size))),
        Err(e) => Err(e),
    }
}

} // verus!
