//! Identifiers: 128-bit tokens drawn as version-4 UUIDs, and their text form.

use vstd::prelude::*;
use vstd::arithmetic::power::pow;
use vstd::set_lib::lemma_int_range;
use vstd::set_lib::lemma_len_subset;

verus! {

/// The bits that mark a UUID as version 4, variant 1.
pub const UUID_V4_MASK: u128 = 0x0000_0000_0000_f000_c000_0000_0000_0000u128;

pub const UUID_V4_BITS: u128 = 0x0000_0000_0000_4000_8000_0000_0000_0000u128;

/// Whether `value` carries the version and variant bits of a random UUID.
pub open spec fn is_uuid_v4(value: u128) -> bool {
    value & UUID_V4_MASK == UUID_V4_BITS
}

/// The hexadecimal digit of `value` at place `k`, counted from the most
/// significant of its 32 digits.
pub open spec fn uuid_digit(value: u128, k: int) -> int {
    (value as int / pow(16, (31 - k) as nat)) % 16
}

/// The canonical text of a UUID: 32 lower-case hexadecimal digits, most
/// significant first, in groups of 8, 4, 4, 4 and 12 separated by hyphens.
pub open spec fn hyphenated(value: u128) -> Seq<char> {
    Seq::new(
        36,
        |i: int|
            if i == 8 || i == 13 || i == 18 || i == 23 {
                '-'
            } else {
                let k = if i < 8 {
                    i
                } else if i < 13 {
                    i - 1
                } else if i < 18 {
                    i - 2
                } else if i < 23 {
                    i - 3
                } else {
                    i - 4
                };
                "0123456789abcdef"@[uuid_digit(value, k)]
            },
    )
}

/// Calls `uuid::Uuid::new_v4` and returns the UUID's 128 bits
/// (`Uuid::as_u128`). The value is random; the contract claims only the
/// version and variant bits that `new_v4` sets on every UUID it makes.
#[verifier::external_body]
fn random_uuid() -> (value: u128)
    ensures
        is_uuid_v4(value),
{
    uuid::Uuid::new_v4().as_u128()
}

/// Calls `uuid::Uuid::from_u128` and formats the UUID with its `Display`
/// impl. The contract claims the hyphenated lower-case form, unproved here.
#[verifier::external_body]
fn format_uuid(value: u128) -> (text: String)
    ensures
        text@ == hyphenated(value),
{
    uuid::Uuid::from_u128(value).to_string()
}

/// The hyphenated text of `value`.
pub fn uuid_text(value: u128) -> (text: String)
    ensures
        text@ == hyphenated(value),
        text@.len() == 36,
{
    format_uuid(value)
}

/// A set of 128-bit numbers that holds every number below `k` has at least
/// `k` members.
pub proof fn lemma_prefix_within(taken: Set<u128>, k: nat)
    requires
        taken.finite(),
        k <= u128::MAX,
        forall|j: u128| j < k ==> taken.contains(j),
    ensures
        k <= taken.len(),
{
    if k > 0 {
        let below = Set::new(|j: u128| j < k);
        let ints = Set::new(|j: int| 0 <= j < k);
        lemma_int_range(0, k as int);
        assert(ints =~= vstd::set_lib::set_int_range(0, k as int));
        assert(below.subset_of(taken));
        lemma_len_subset(below, taken);
        vstd::set_lib::lemma_set_subset_finite(taken, below);
        let f = |j: u128| j as int;
        assert(below.map(f) =~= ints) by {
            assert forall|x: int| ints.contains(x) implies below.map(f).contains(x) by {
                assert(below.contains(x as u128));
                assert(f(x as u128) == x);
            }
        }
        vstd::set_lib::lemma_map_size(below, ints, f);
    }
}

/// Finitely many identifiers that are taken.
pub trait Taken {
    /// The identifiers that are taken.
    spec fn taken(&self) -> Set<u128>;

    /// Whether `id` is taken.
    fn is_taken(&self, id: u128) -> (found: bool)
        ensures
            found == self.taken().contains(id),
    ;
}

impl Taken for Vec<u128> {
    open spec fn taken(&self) -> Set<u128> {
        self@.to_set()
    }

    fn is_taken(&self, id: u128) -> (found: bool) {
        holds(self, id)
    }
}

/// An identifier that `taken` does not hold: a random UUID, or, should that
/// one be taken, the least number that is free.
pub fn draw_unused_in<S: Taken>(taken: &S) -> (value: u128)
    requires
        taken.taken().finite(),
        taken.taken().len() < u128::MAX,
    ensures
        !taken.taken().contains(value),
{
    let first = random_uuid();
    if !taken.is_taken(first) {
        return first;
    }
    let mut candidate: u128 = 0;
    while taken.is_taken(candidate)
        invariant
            taken.taken().finite(),
            taken.taken().len() < u128::MAX,
            forall|j: u128| j < candidate ==> taken.taken().contains(j),
            candidate <= taken.taken().len(),
        decreases taken.taken().len() - candidate,
    {
        proof {
            lemma_prefix_within(taken.taken(), (candidate + 1) as nat);
        }
        candidate = candidate + 1;
    }
    candidate
}

/// An identifier that `taken` does not hold: a random UUID, or, should that
/// one be taken, the least number that is free.
pub fn draw_unused(taken: &Vec<u128>) -> (value: u128)
    ensures
        !taken@.contains(value),
{
    proof {
        taken@.lemma_cardinality_of_set();
        assert(taken@.len() == taken.len());
    }
    draw_unused_in(taken)
}

/// Whether `value` occurs in `numbers`.
pub fn holds(numbers: &Vec<u128>, value: u128) -> (found: bool)
    ensures
        found == numbers@.contains(value),
{
    let mut i: usize = 0;
    while i < numbers.len()
        invariant
            i <= numbers.len(),
            forall|j: int| 0 <= j < i ==> numbers@[j] != value,
        decreases numbers.len() - i,
    {
        if numbers[i] == value {
            return true;
        }
        i = i + 1;
    }
    false
}

/// Identifies one registered event callback.
#[derive(Clone, Copy, Debug, PartialEq, Eq, Hash, Default, Structural)]
pub struct EventHandleId(pub u128);

impl EventHandleId {
    /// A randomly drawn identifier.
    pub fn new() -> (id: Self)
        ensures
            is_uuid_v4(id.0),
    {
        EventHandleId(random_uuid())
    }

    /// The identifier as sent to the remote side.
    pub fn to_text(&self) -> (text: String)
        ensures
            text@ == hyphenated(self.0),
    {
        uuid_text(self.0)
    }
}

} // verus!
