use vstd::prelude::*;
use crate::golomb::{adaptive_high_range_bits_spec, adaptive_high_range_score_bits};

verus! {

/// One coded syntax element: a context-coded symbol (with the static CDF it
/// was coded against) or a run of equiprobable literal bits.
#[derive(Debug, PartialEq, Eq)]
pub struct Av2EntropyField {
    pub name: String,
    pub symbol: Option<usize>,
    pub static_cdf_key: Option<usize>,
    pub literal_value: Option<u32>,
    pub bit_count: usize,
}

/// The syntax elements of a finished tile, in coding order, and the number of
/// equiprobable bits among them.
#[derive(Debug)]
pub struct Av2EntropyPayload {
    pub fields: Vec<Av2EntropyField>,
    pub symbol_bits: usize,
}

/// Records the syntax elements of a tile in coding order.
#[derive(Debug)]
pub struct Av2EntropyWriter {
    pub fields: Vec<Av2EntropyField>,
    pub symbol_bits: usize,
    pub cdf_updates: bool,
}

/// `f` is a context-coded symbol named `name`.
pub open spec fn is_symbol_field(f: Av2EntropyField, name: Seq<char>, static_cdf_key: Option<usize>, symbol: usize) -> bool {
    &&& f.name@ == name
    &&& f.symbol == Some(symbol)
    &&& f.static_cdf_key == static_cdf_key
    &&& f.literal_value.is_none()
    &&& f.bit_count == 0
}

/// `f` is a literal of `bit_count` equiprobable bits named `name`.
pub open spec fn is_literal_field(f: Av2EntropyField, name: Seq<char>, value: u32, bit_count: nat) -> bool {
    &&& f.name@ == name
    &&& f.symbol.is_none()
    &&& f.static_cdf_key.is_none()
    &&& f.literal_value == Some(value)
    &&& f.bit_count == bit_count
}

/// `f` is an adaptive Golomb-Rice high-range value named `name`, coded with
/// Rice context `context`.
pub open spec fn is_high_range_field(f: Av2EntropyField, name: Seq<char>, value: u32, context: u32) -> bool {
    is_literal_field(f, name, value, adaptive_high_range_bits_spec(value as nat, context as nat) as nat)
}

/// `new` extends `old` by exactly the element `f` (and its literal bits).
pub open spec fn appended_one(old: Av2EntropyWriter, new: Av2EntropyWriter) -> bool {
    &&& new.fields@.len() == old.fields@.len() + 1
    &&& new.fields@.subrange(0, old.fields@.len() as int) == old.fields@
    &&& new.cdf_updates == old.cdf_updates
    &&& new.symbol_bits == saturating_add_spec(old.symbol_bits as int, new.fields@.last().bit_count as int)
}

/// `a + b` saturated at `usize::MAX`.
pub open spec fn saturating_add_spec(a: int, b: int) -> int {
    if a + b > usize::MAX { usize::MAX as int } else { a + b }
}

/// The last element recorded by `w`.
pub open spec fn last_field(w: Av2EntropyWriter) -> Av2EntropyField {
    w.fields@.last()
}

impl Av2EntropyWriter {
    /// An empty writer.
    pub fn new() -> (r: Av2EntropyWriter)
        ensures
            r.fields@.len() == 0,
            r.symbol_bits == 0,
            !r.cdf_updates,
    {
        Av2EntropyWriter { fields: Vec::new(), symbol_bits: 0, cdf_updates: false }
    }

    /// An empty writer with the given CDF adaptation setting.
    pub fn with_cdf_updates(cdf_updates: bool) -> (r: Av2EntropyWriter)
        ensures
            r.fields@.len() == 0,
            r.symbol_bits == 0,
            r.cdf_updates == cdf_updates,
    {
        Av2EntropyWriter { fields: Vec::new(), symbol_bits: 0, cdf_updates }
    }

    /// Records a context-coded symbol.
    pub fn write_symbol_with_static_cdf_key(&mut self, name: &str, static_cdf_key: usize, symbol: usize)
        ensures
            appended_one(*old(self), *final(self)),
            is_symbol_field(last_field(*final(self)), name@, Some(static_cdf_key), symbol),
    {
        let field = Av2EntropyField {
            name: name.to_owned(),
            symbol: Some(symbol),
            static_cdf_key: Some(static_cdf_key),
            literal_value: None,
            bit_count: 0,
        };
        let ghost before = self.fields@;
        self.fields.push(field);
        proof {
            assert(self.fields@.subrange(0, before.len() as int) =~= before);
        }
    }

    /// Records a context-coded symbol with an adaptive CDF of no static key.
    pub fn write_symbol(&mut self, name: &str, symbol: usize)
        ensures
            appended_one(*old(self), *final(self)),
            is_symbol_field(last_field(*final(self)), name@, None, symbol),
    {
        let field = Av2EntropyField {
            name: name.to_owned(),
            symbol: Some(symbol),
            static_cdf_key: None,
            literal_value: None,
            bit_count: 0,
        };
        let ghost before = self.fields@;
        self.fields.push(field);
        proof {
            assert(self.fields@.subrange(0, before.len() as int) =~= before);
        }
    }

    /// Records `bit_count` equiprobable bits holding `value`.
    pub fn write_literal(&mut self, name: &str, value: u32, bit_count: u8)
        ensures
            appended_one(*old(self), *final(self)),
            is_literal_field(last_field(*final(self)), name@, value, bit_count as nat),
    {
        self.push_literal(name, value, bit_count as usize);
    }

    /// Records one equiprobable bit.
    pub fn write_literal_bit(&mut self, name: &str, bit: bool)
        ensures
            appended_one(*old(self), *final(self)),
            is_literal_field(last_field(*final(self)), name@, if bit { 1u32 } else { 0u32 }, 1),
    {
        self.push_literal(name, if bit { 1 } else { 0 }, 1);
    }

    fn push_literal(&mut self, name: &str, value: u32, bit_count: usize)
        ensures
            appended_one(*old(self), *final(self)),
            is_literal_field(last_field(*final(self)), name@, value, bit_count as nat),
    {
        let field = Av2EntropyField {
            name: name.to_owned(),
            symbol: None,
            static_cdf_key: None,
            literal_value: Some(value),
            bit_count,
        };
        let ghost before = self.fields@;
        self.fields.push(field);
        proof {
            assert(self.fields@.subrange(0, before.len() as int) =~= before);
        }
        self.symbol_bits = self.symbol_bits.saturating_add(bit_count);
    }

    /// Records an adaptive Golomb-Rice high-range value.
    pub fn write_adaptive_high_range_with_context(&mut self, name: &str, value: u32, context: u32)
        ensures
            appended_one(*old(self), *final(self)),
            is_high_range_field(last_field(*final(self)), name@, value, context),
    {
        let bits = adaptive_high_range_score_bits(value, context);
        self.push_literal(name, value, bits);
    }

    /// Hands out the recorded elements.
    pub fn finish(self) -> (r: Av2EntropyPayload)
        ensures
            r.fields@ == self.fields@,
            r.symbol_bits == self.symbol_bits,
    {
        Av2EntropyPayload { fields: self.fields, symbol_bits: self.symbol_bits }
    }
}

/// What one recorded element must be: name, symbol, static CDF key,
/// literal value and literal bit count.
pub type Av2FieldSpec = (Seq<char>, Option<usize>, Option<usize>, Option<u32>, nat);

/// `f` is the element described by `s`.
pub open spec fn field_is(f: Av2EntropyField, s: Av2FieldSpec) -> bool {
    &&& f.name@ == s.0
    &&& f.symbol == s.1
    &&& f.static_cdf_key == s.2
    &&& f.literal_value == s.3
    &&& f.bit_count == s.4
}

/// A context-coded symbol.
pub open spec fn symbol_spec(name: Seq<char>, static_cdf_key: Option<usize>, symbol: usize) -> Av2FieldSpec {
    (name, Some(symbol), static_cdf_key, None, 0)
}

/// A run of `bits` equiprobable literal bits holding `value`.
pub open spec fn literal_spec(name: Seq<char>, value: u32, bits: nat) -> Av2FieldSpec {
    (name, None, None, Some(value), bits)
}

/// Literal bits carried by a run of elements.
pub open spec fn total_bits(specs: Seq<Av2FieldSpec>) -> int
    decreases specs.len(),
{
    if specs.len() == 0 {
        0
    } else {
        total_bits(specs.drop_last()) + specs.last().4
    }
}

/// `new` extends `old` by exactly the elements `specs`, in order.
pub open spec fn fields_appended(old_w: Av2EntropyWriter, new_w: Av2EntropyWriter, specs: Seq<Av2FieldSpec>) -> bool {
    &&& new_w.fields@.len() == old_w.fields@.len() + specs.len()
    &&& new_w.fields@.subrange(0, old_w.fields@.len() as int) == old_w.fields@
    &&& forall|i: int| 0 <= i < specs.len() ==> #[trigger] field_is(new_w.fields@[old_w.fields@.len() + i], specs[i])
    &&& new_w.cdf_updates == old_w.cdf_updates
    &&& new_w.symbol_bits == saturating_add_spec(old_w.symbol_bits as int, total_bits(specs))
}

pub proof fn lemma_total_bits_nonneg(specs: Seq<Av2FieldSpec>)
    ensures
        total_bits(specs) >= 0,
    decreases specs.len(),
{
    if specs.len() > 0 {
        lemma_total_bits_nonneg(specs.drop_last());
    }
}

pub proof fn lemma_total_bits_append(s1: Seq<Av2FieldSpec>, s2: Seq<Av2FieldSpec>)
    ensures
        total_bits(s1 + s2) == total_bits(s1) + total_bits(s2),
    decreases s2.len(),
{
    if s2.len() == 0 {
        assert(s1 + s2 =~= s1);
    } else {
        assert((s1 + s2).drop_last() =~= s1 + s2.drop_last());
        lemma_total_bits_append(s1, s2.drop_last());
    }
}

/// Nothing was written.
pub proof fn lemma_fields_appended_none(w: Av2EntropyWriter)
    ensures
        fields_appended(w, w, Seq::empty()),
{
    assert(w.fields@.subrange(0, w.fields@.len() as int) =~= w.fields@);
    assert(total_bits(Seq::<Av2FieldSpec>::empty()) == 0);
}

/// One element was written.
pub proof fn lemma_fields_appended_one(old_w: Av2EntropyWriter, new_w: Av2EntropyWriter, s: Av2FieldSpec)
    requires
        appended_one(old_w, new_w),
        field_is(last_field(new_w), s),
    ensures
        fields_appended(old_w, new_w, seq![s]),
{
    let specs = seq![s];
    assert(specs.drop_last() =~= Seq::<Av2FieldSpec>::empty());
    assert(total_bits(Seq::<Av2FieldSpec>::empty()) == 0);
    assert(specs.last() == s);
    assert(total_bits(specs) == s.4);
    assert forall|i: int| 0 <= i < specs.len() implies #[trigger] field_is(new_w.fields@[old_w.fields@.len() + i], specs[i]) by {
        assert(i == 0);
    }
}

/// Writing `s1` then `s2` writes `s1 + s2`.
pub proof fn lemma_fields_appended_trans(
    a: Av2EntropyWriter,
    b: Av2EntropyWriter,
    c: Av2EntropyWriter,
    s1: Seq<Av2FieldSpec>,
    s2: Seq<Av2FieldSpec>,
)
    requires
        fields_appended(a, b, s1),
        fields_appended(b, c, s2),
    ensures
        fields_appended(a, c, s1 + s2),
{
    lemma_total_bits_append(s1, s2);
    lemma_total_bits_nonneg(s1);
    lemma_total_bits_nonneg(s2);
    let la = a.fields@.len() as int;
    let lb = b.fields@.len() as int;
    assert(c.fields@.subrange(0, la) =~= a.fields@) by {
        assert forall|i: int| 0 <= i < la implies c.fields@[i] == a.fields@[i] by {
            assert(c.fields@.subrange(0, lb)[i] == b.fields@[i]);
            assert(b.fields@.subrange(0, la)[i] == a.fields@[i]);
        }
    }
    assert forall|i: int| 0 <= i < (s1 + s2).len() implies #[trigger] field_is(c.fields@[la + i], (s1 + s2)[i]) by {
        if i < s1.len() {
            assert(field_is(b.fields@[la + i], s1[i]));
            assert(c.fields@.subrange(0, lb)[la + i] == b.fields@[la + i]);
        } else {
            assert(field_is(c.fields@[lb + (i - s1.len())], s2[i - s1.len()]));
        }
    }
}

} // verus!
