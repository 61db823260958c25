//! RSpec/Language role classification shared by the `RSpec/*` rules.
//!
//! rubocop-rspec resolves its DSL through sixteen configurable name lists.
//! [`RSpecConfig`] folds them into one table from a method name to the mask
//! of every list that names it (bit `i` for list `i`, see [`roles`]), plus
//! the per-cop settings.

pub mod roles;

use vstd::prelude::*;
use vstd::utf8::encode_utf8;

verus! {

/// The number of role lists.
pub const N_ROLE_LISTS: usize = 16;

/// The length of the segment's numbers: `[rspec_enabled, variable_name_style,
/// variable_definition_style, mmh_max, mmh_allow_subject]`.
pub const SEGMENT_NUMS_LEN: usize = 5;

/// The role table and the per-cop settings of the RSpec rules.
#[derive(Debug, Clone)]
pub struct RSpecConfig {
    /// Distinct method names.
    pub names: Vec<Vec<u8>>,
    /// `masks[i]` is the role mask of `names[i]`.
    pub masks: Vec<u32>,
    /// `RSpec/VariableName` style: 0 = snake_case, 1 = camelCase.
    pub variable_name_style: u8,
    /// `RSpec/VariableDefinition` style: 0 = symbols, 1 = strings.
    pub variable_definition_style: u8,
    /// `RSpec/MultipleMemoizedHelpers` `Max`.
    pub mmh_max: i64,
    /// `RSpec/MultipleMemoizedHelpers` `AllowSubject`.
    pub mmh_allow_subject: bool,
    /// `RSpec/NamedSubject` style: 0 = always, 1 = named_only.
    pub named_subject_style: u8,
    /// `RSpec/NamedSubject` `IgnoreSharedExamples`.
    pub named_subject_ignore_shared: bool,
}

/// Whether bit `k` of `m` is set.
pub open spec fn has_bit(m: u32, k: u32) -> bool {
    m & (1u32 << k) != 0
}

/// `name` is spelled by one of the strings of `list`.
pub open spec fn list_names(list: Seq<String>, name: Seq<u8>) -> bool {
    exists|j: int| 0 <= j < list.len() && encode_utf8((#[trigger] list[j])@) == name
}

/// A mask within the low sixteen bits keeps there when bit `i < 16` is set,
/// and has no bit from sixteen on.
proof fn lemma_low_bits(m: u32, i: u32, k: u32)
    requires
        m < 0x10000,
        i < 16,
    ensures
        (m | (1u32 << i)) < 0x10000,
        16 <= k < 32 ==> !has_bit(m, k),
{
    assert((m | (1u32 << i)) < 0x10000) by (bit_vector)
        requires m < 0x10000, i < 16;
    if 16 <= k < 32 {
        assert(m & (1u32 << k) == 0) by (bit_vector)
            requires m < 0x10000, 16 <= k < 32;
    }
}

proof fn lemma_or_bit(m: u32, i: u32, k: u32)
    requires
        i < 32,
        k < 32,
    ensures
        has_bit(m | (1u32 << i), k) == (has_bit(m, k) || i == k),
        has_bit(1u32 << i, k) == (i == k),
        !has_bit(0u32, k),
{
    assert(((m | (1u32 << i)) & (1u32 << k) != 0) == ((m & (1u32 << k) != 0) || i == k)) by (bit_vector)
        requires i < 32, k < 32;
    assert(((1u32 << i) & (1u32 << k) != 0) == (i == k)) by (bit_vector)
        requires i < 32, k < 32;
    assert((0u32 & (1u32 << k)) == 0) by (bit_vector);
}

impl RSpecConfig {
    /// The names are distinct and each has a mask.
    pub closed spec fn wf(&self) -> bool {
        &&& self.names@.len() == self.masks@.len()
        &&& forall|a: int, b: int| 0 <= a < b < self.names@.len() ==> self.names@[a]@ != self.names@[b]@
    }

    /// The role mask of `name`: the mask of its entry, or `0`.
    pub closed spec fn spec_roles_of(&self, name: Seq<u8>) -> u32 {
        if exists|i: int| 0 <= i < self.names@.len() && (#[trigger] self.names@[i])@ == name {
            let i = choose|i: int| 0 <= i < self.names@.len() && (#[trigger] self.names@[i])@ == name;
            self.masks@[i]
        } else {
            0
        }
    }

    /// Parses a whole rspec segment: an error unless there are exactly
    /// [`SEGMENT_NUMS_LEN`] numbers and [`N_ROLE_LISTS`] lists, `None` when
    /// the enable flag (the first number) is zero.
    pub fn from_segment(nums: &[i64], lists: &[Vec<String>]) -> (r: Result<Option<Self>, String>)
        ensures
            nums@.len() != SEGMENT_NUMS_LEN ==> (r matches Err(e) && e@ == mismatch_text("nums"@, SEGMENT_NUMS_LEN,
                nums@.len() as usize)),
            nums@.len() == SEGMENT_NUMS_LEN && nums@[0] != 0 && lists@.len() != N_ROLE_LISTS ==> (r matches Err(e) && e@
                == mismatch_text("role lists"@, N_ROLE_LISTS, lists@.len() as usize)),
            nums@.len() == SEGMENT_NUMS_LEN && nums@[0] == 0 ==> r == Ok::<Option<Self>, String>(None),
            nums@.len() == SEGMENT_NUMS_LEN && nums@[0] != 0 ==> (r is Err <==> lists@.len() != N_ROLE_LISTS),
            nums@.len() == SEGMENT_NUMS_LEN && nums@[0] != 0 && lists@.len() == N_ROLE_LISTS ==> r matches Ok(Some(_)),
            r matches Ok(Some(c)) ==> {
                &&& c.wf()
                &&& c.variable_name_style == nums@[1] as u8
                &&& c.variable_definition_style == nums@[2] as u8
                &&& c.mmh_max == nums@[3]
                &&& c.mmh_allow_subject == (nums@[4] != 0)
                &&& forall|name: Seq<u8>, k: u32| k < N_ROLE_LISTS ==>
                    (#[trigger] has_bit(c.spec_roles_of(name), k) <==> list_names(lists@[k as int]@, name))
                &&& forall|name: Seq<u8>, k: u32| N_ROLE_LISTS <= k < 32 ==> !#[trigger] has_bit(c.spec_roles_of(name), k)
            },
    {
        if nums.len() != SEGMENT_NUMS_LEN {
            return Err(count_mismatch("nums", SEGMENT_NUMS_LEN, nums.len()));
        }
        if nums[0] == 0 {
            return Ok(None);
        }
        match Self::from_role_lists(lists) {
            Ok(mut cfg) => {
                let ghost c0 = cfg;
                cfg.variable_name_style = #[verifier::truncate] (nums[1] as u8);
                cfg.variable_definition_style = #[verifier::truncate] (nums[2] as u8);
                cfg.mmh_max = nums[3];
                cfg.mmh_allow_subject = nums[4] != 0;
                assert(cfg.names == c0.names && cfg.masks == c0.masks);
                assert forall|name: Seq<u8>, k: u32| k < N_ROLE_LISTS implies
                    (#[trigger] has_bit(cfg.spec_roles_of(name), k) <==> list_names(lists@[k as int]@, name)) by {
                    assert(cfg.spec_roles_of(name) == c0.spec_roles_of(name));
                    assert(has_bit(c0.spec_roles_of(name), k) <==> list_names(lists@[k as int]@, name));
                }
                assert forall|name: Seq<u8>, k: u32| N_ROLE_LISTS <= k < 32 implies !#[trigger] has_bit(cfg.spec_roles_of(name), k) by {
                    assert(cfg.spec_roles_of(name) == c0.spec_roles_of(name));
                }
                Ok(Some(cfg))
            },
            Err(e) => Err(e),
        }
    }

    /// Builds the role table from the sixteen lists (bit `i` for list `i`);
    /// the per-cop settings get their defaults. An error unless there are
    /// exactly [`N_ROLE_LISTS`] lists.
    pub fn from_role_lists(lists: &[Vec<String>]) -> (r: Result<Self, String>)
        ensures
            r is Err <==> lists@.len() != N_ROLE_LISTS,
            r matches Err(e) ==> e@ == mismatch_text("role lists"@, N_ROLE_LISTS, lists@.len() as usize),
            r matches Ok(c) ==> {
                &&& c.wf()
                &&& c.variable_name_style == 0
                &&& c.variable_definition_style == 0
                &&& c.mmh_max == 5
                &&& c.mmh_allow_subject
                &&& c.named_subject_style == 0
                &&& c.named_subject_ignore_shared
                &&& forall|name: Seq<u8>, k: u32| k < N_ROLE_LISTS ==>
                    (#[trigger] has_bit(c.spec_roles_of(name), k) <==> list_names(lists@[k as int]@, name))
                &&& forall|name: Seq<u8>, k: u32| N_ROLE_LISTS <= k < 32 ==> !#[trigger] has_bit(c.spec_roles_of(name), k)
            },
    {
        if lists.len() != N_ROLE_LISTS {
            return Err(count_mismatch("role lists", N_ROLE_LISTS, lists.len()));
        }
        let mut cfg = RSpecConfig {
            names: Vec::new(),
            masks: Vec::new(),
            variable_name_style: 0,
            variable_definition_style: 0,
            mmh_max: 5,
            mmh_allow_subject: true,
            named_subject_style: 0,
            named_subject_ignore_shared: true,
        };
        assert forall|name: Seq<u8>, k: u32| k < N_ROLE_LISTS implies
            !(#[trigger] has_bit(cfg.spec_roles_of(name), k)) by {
            lemma_or_bit(0u32, 0u32, k);
        }
        assert forall|name: Seq<u8>| #[trigger] cfg.spec_roles_of(name) < 0x10000 by {
            assert(cfg.spec_roles_of(name) == 0);
        }
        let mut i: usize = 0;
        while i < N_ROLE_LISTS
            invariant
                lists@.len() == N_ROLE_LISTS,
                i <= N_ROLE_LISTS,
                cfg.wf(),
                cfg.variable_name_style == 0,
                cfg.variable_definition_style == 0,
                cfg.mmh_max == 5,
                cfg.mmh_allow_subject,
                cfg.named_subject_style == 0,
                cfg.named_subject_ignore_shared,
                forall|name: Seq<u8>, k: u32| k < N_ROLE_LISTS ==>
                    (#[trigger] has_bit(cfg.spec_roles_of(name), k) <==> (k < i && list_names(lists@[k as int]@, name))),
                forall|name: Seq<u8>| #[trigger] cfg.spec_roles_of(name) < 0x10000,
            decreases N_ROLE_LISTS - i,
        {
            let list = &lists[i];
            let mut j: usize = 0;
            while j < list.len()
                invariant
                    lists@.len() == N_ROLE_LISTS,
                    i < N_ROLE_LISTS,
                    *list == lists@[i as int],
                    j <= list@.len(),
                    cfg.wf(),
                    cfg.variable_name_style == 0,
                    cfg.variable_definition_style == 0,
                    cfg.mmh_max == 5,
                    cfg.mmh_allow_subject,
                    cfg.named_subject_style == 0,
                    cfg.named_subject_ignore_shared,
                    forall|name: Seq<u8>, k: u32| k < N_ROLE_LISTS ==>
                        (#[trigger] has_bit(cfg.spec_roles_of(name), k) <==> (
                            (k < i && list_names(lists@[k as int]@, name))
                            || (k == i && list_names(list@.subrange(0, j as int), name)))),
                    forall|name: Seq<u8>| #[trigger] cfg.spec_roles_of(name) < 0x10000,
                decreases list.len() - j,
            {
                let bytes = list[j].as_str().as_bytes();
                let ghost prev = cfg;
                cfg.add_role(bytes, i as u32);
                proof {
                    assert forall|name: Seq<u8>| #[trigger] cfg.spec_roles_of(name) < 0x10000 by {
                        lemma_low_bits(prev.spec_roles_of(name), i as u32, 0);
                    }
                    assert forall|name: Seq<u8>, k: u32| k < N_ROLE_LISTS implies
                        (#[trigger] has_bit(cfg.spec_roles_of(name), k) <==> (
                            (k < i && list_names(lists@[k as int]@, name))
                            || (k == i && list_names(list@.subrange(0, j + 1), name)))) by {
                        lemma_or_bit(prev.spec_roles_of(name), i as u32, k);
                        lemma_or_bit(0u32, i as u32, k);
                        let sub = list@.subrange(0, j + 1);
                        if name == bytes@ {
                            assert(sub[j as int] == list@[j as int]);
                        }
                        if list_names(sub, name) {
                            let w = choose|w: int| 0 <= w < sub.len() && encode_utf8((#[trigger] sub[w])@) == name;
                            if w < j {
                                assert(list@.subrange(0, j as int)[w] == sub[w]);
                            }
                        }
                        if list_names(list@.subrange(0, j as int), name) {
                            let w = choose|w: int| 0 <= w < j && encode_utf8((#[trigger] list@.subrange(0, j as int)[w])@) == name;
                            assert(sub[w] == list@.subrange(0, j as int)[w]);
                        }
                    }
                }
                j += 1;
            }
            proof {
                assert(list@.subrange(0, list@.len() as int) =~= list@);
            }
            i += 1;
        }
        assert forall|name: Seq<u8>, k: u32| N_ROLE_LISTS <= k < 32 implies !#[trigger] has_bit(cfg.spec_roles_of(name), k) by {
            lemma_low_bits(cfg.spec_roles_of(name), 0, k);
        }
        Ok(cfg)
    }

    /// Sets bit `bit` in the mask of `name`, adding the name when new.
    fn add_role(&mut self, name: &[u8], bit: u32)
        requires
            old(self).wf(),
            bit < 32,
        ensures
            final(self).wf(),
            final(self).variable_name_style == old(self).variable_name_style,
            final(self).variable_definition_style == old(self).variable_definition_style,
            final(self).mmh_max == old(self).mmh_max,
            final(self).mmh_allow_subject == old(self).mmh_allow_subject,
            final(self).named_subject_style == old(self).named_subject_style,
            final(self).named_subject_ignore_shared == old(self).named_subject_ignore_shared,
            forall|n: Seq<u8>| #[trigger] final(self).spec_roles_of(n)
                == if n == name@ { old(self).spec_roles_of(n) | (1u32 << bit) } else { old(self).spec_roles_of(n) },
    {
        match self.find(name) {
            Some(i) => {
                let m = self.masks[i] | (1u32 << bit);
                let ghost before = *self;
                self.masks.set(i, m);
                proof {
                    assert forall|n: Seq<u8>| #[trigger] self.spec_roles_of(n)
                        == if n == name@ { before.spec_roles_of(n) | (1u32 << bit) } else { before.spec_roles_of(n) } by {
                        if exists|q: int| 0 <= q < self.names@.len() && (#[trigger] self.names@[q])@ == n {
                            let q = choose|q: int| 0 <= q < self.names@.len() && (#[trigger] self.names@[q])@ == n;
                            assert(self.names@[i as int]@ == name@);
                            if n == name@ {
                                assert(q == i);
                            } else {
                                assert(q != i);
                            }
                        }
                    }
                }
            },
            None => {
                let ghost before = *self;
                let mut v: Vec<u8> = Vec::new();
                let mut k: usize = 0;
                while k < name.len()
                    invariant
                        k <= name@.len(),
                        v@ == name@.subrange(0, k as int),
                    decreases name.len() - k,
                {
                    v.push(name[k]);
                    k += 1;
                }
                assert(v@ =~= name@);
                self.names.push(v);
                self.masks.push(1u32 << bit);
                proof {
                    let last = self.names@.len() - 1;
                    assert forall|n: Seq<u8>| #[trigger] self.spec_roles_of(n)
                        == if n == name@ { before.spec_roles_of(n) | (1u32 << bit) } else { before.spec_roles_of(n) } by {
                        assert(self.names@[last]@ == name@);
                        if n == name@ {
                            assert(!(exists|q: int| 0 <= q < before.names@.len() && (#[trigger] before.names@[q])@ == n));
                            assert(before.spec_roles_of(n) == 0);
                            assert((0u32 | (1u32 << bit)) == (1u32 << bit)) by (bit_vector);
                            let q = choose|q: int| 0 <= q < self.names@.len() && (#[trigger] self.names@[q])@ == n;
                            assert(q == last);
                        } else if exists|q: int| 0 <= q < self.names@.len() && (#[trigger] self.names@[q])@ == n {
                            let q = choose|q: int| 0 <= q < self.names@.len() && (#[trigger] self.names@[q])@ == n;
                            assert(q != last);
                            assert(before.names@[q]@ == n);
                        } else {
                            assert forall|q: int| 0 <= q < before.names@.len() implies (#[trigger] before.names@[q])@ != n by {
                                assert(self.names@[q] == before.names@[q]);
                            }
                        }
                    }
                }
            },
        }
    }

    /// The index of `name`'s entry, if any.
    fn find(&self, name: &[u8]) -> (r: Option<usize>)
        requires
            self.wf(),
        ensures
            match r {
                Some(i) => i < self.names@.len() && self.names@[i as int]@ == name@,
                None => forall|i: int| 0 <= i < self.names@.len() ==> (#[trigger] self.names@[i])@ != name@,
            },
    {
        let mut i: usize = 0;
        while i < self.names.len()
            invariant
                i <= self.names@.len(),
                forall|q: int| 0 <= q < i ==> (#[trigger] self.names@[q])@ != name@,
            decreases self.names.len() - i,
        {
            if bytes_eq(&self.names[i], name) {
                return Some(i);
            }
            i += 1;
        }
        None
    }

    /// The role mask of `name`; `0` when no list names it.
    pub fn roles_of(&self, name: &[u8]) -> (m: u32)
        requires
            self.wf(),
        ensures
            m == self.spec_roles_of(name@),
    {
        match self.find(name) {
            Some(i) => {
                proof {
                    let q = choose|q: int| 0 <= q < self.names@.len() && (#[trigger] self.names@[q])@ == name@;
                    assert(q == i);
                }
                self.masks[i]
            },
            None => 0,
        }
    }
}

/// Whether the bytes of `a` equal `b`.
pub fn bytes_eq(a: &Vec<u8>, b: &[u8]) -> (r: bool)
    ensures
        r == (a@ == b@),
{
    if a.len() != b.len() {
        return false;
    }
    let mut i: usize = 0;
    while i < a.len()
        invariant
            a@.len() == b@.len(),
            i <= a@.len(),
            forall|q: int| 0 <= q < i ==> a@[q] == b@[q],
        decreases a.len() - i,
    {
        if a[i] != b[i] {
            return false;
        }
        i += 1;
    }
    assert(a@ =~= b@);
    true
}

/// The decimal digit `d` (below ten) as a character.
pub open spec fn digit_char(d: nat) -> char {
    (48 + d) as char
}

/// The decimal form of `n`: its digits, most significant first, without
/// leading zeros.
pub open spec fn decimal(n: nat) -> Seq<char>
    decreases n,
{
    if n < 10 {
        seq![digit_char(n)]
    } else {
        decimal(n / 10).push(digit_char(n % 10))
    }
}

/// The error text for a segment whose `what` count is `got` instead of
/// `expected`: "rspec segment expects {expected} {what}, got {got}".
pub open spec fn mismatch_text(what: Seq<char>, expected: usize, got: usize) -> Seq<char> {
    "rspec segment expects "@ + decimal(expected as nat) + " "@ + what + ", got "@ + decimal(got as nat)
}

/// `ToString::to_string` on a `usize` (through its `Display`): the decimal
/// form of `n`, as the documentation of integer formatting gives it.
#[verifier::external_body]
fn decimal_text(n: usize) -> (r: String)
    ensures
        r@ == decimal(n as nat),
{
    n.to_string()
}

/// The error text for a segment whose `what` count is `got` instead of
/// `expected` ([`mismatch_text`]).
fn count_mismatch(what: &str, expected: usize, got: usize) -> (r: String)
    ensures
        r@ == mismatch_text(what@, expected, got),
{
    let mut s = String::from_str("rspec segment expects ");
    let e = decimal_text(expected);
    s.append(e.as_str());
    s.append(" ");
    s.append(what);
    s.append(", got ");
    let g = decimal_text(got);
    s.append(g.as_str());
    s
}

} // verus!
