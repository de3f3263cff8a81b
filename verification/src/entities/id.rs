//! Identifiers and `device_id.entity_id` addresses.

use std::str::FromStr;

use vstd::prelude::*;

use crate::error::{IdFault, IdParseError};

verus! {

pub open spec fn is_lower(c: char) -> bool {
    'a' <= c && c <= 'z'
}

pub open spec fn is_id_char(c: char) -> bool {
    is_lower(c) || ('0' <= c && c <= '9') || c == '_'
}

/// A plain id: a lowercase letter, then lowercase letters, digits and underscores.
pub open spec fn valid_id(s: Seq<char>) -> bool {
    &&& s.len() > 0
    &&& is_lower(s[0])
    &&& forall|i: int| 1 <= i < s.len() ==> is_id_char(#[trigger] s[i])
}

/// Whether `s[i..j]` is one of the pieces that the dots of `s` separate.
pub open spec fn is_segment(s: Seq<char>, i: int, j: int) -> bool {
    &&& 0 <= i <= j <= s.len()
    &&& i == 0 || s[i - 1] == '.'
    &&& j == s.len() || s[j] == '.'
    &&& forall|k: int| i <= k < j ==> #[trigger] s[k] != '.'
}

/// An entity-local id: one or more plain ids with dots between them.
pub open spec fn valid_local_id(s: Seq<char>) -> bool {
    forall|i: int, j: int| #[trigger] is_segment(s, i, j) ==> valid_id(s.subrange(i, j))
}

/// The two parts of an entity address.
#[verifier::ext_equal]
pub struct EntityAddress {
    pub device: Seq<char>,
    pub entity: Seq<char>,
}

pub open spec fn valid_address(a: EntityAddress) -> bool {
    valid_id(a.device) && valid_local_id(a.entity)
}

/// An address written out: `device_id.entity_id`.
pub open spec fn address_text(a: EntityAddress) -> Seq<char> {
    a.device.push('.') + a.entity
}

/// What a string means as an address: the first dot separates the device from
/// the entity, and both parts have to be valid.
pub open spec fn parsed_address(s: Seq<char>) -> Result<EntityAddress, IdFault> {
    match s.index_of_first('.') {
        None => Err(IdFault::InvalidAddress(s)),
        Some(dot) => {
            let device = s.take(dot);
            let entity = s.skip(dot + 1);
            if !valid_id(device) {
                Err(IdFault::InvalidId(device))
            } else if !valid_local_id(entity) {
                Err(IdFault::InvalidId(entity))
            } else {
                Ok(EntityAddress { device, entity })
            }
        },
    }
}

fn exec_is_lower(c: char) -> (r: bool)
    ensures
        r == is_lower(c),
{
    'a' <= c && c <= 'z'
}

fn exec_is_id_char(c: char) -> (r: bool)
    ensures
        r == is_id_char(c),
{
    exec_is_lower(c) || ('0' <= c && c <= '9') || c == '_'
}

/// Whether `s` is a plain id.
pub fn is_valid_id(s: &str) -> (valid: bool)
    ensures
        valid == valid_id(s@),
{
    let n: usize = s.unicode_len();
    if n == 0 || !exec_is_lower(s.get_char(0)) {
        return false;
    }
    let mut i: usize = 1;
    while i < n
        invariant
            n == s@.len(),
            1 <= i <= n,
            is_lower(s@[0]),
            forall|j: int| 1 <= j < i ==> is_id_char(#[trigger] s@[j]),
        decreases n - i,
    {
        if !exec_is_id_char(s.get_char(i)) {
            return false;
        }
        i += 1;
    }
    true
}

/// Entity-local ids may contain dots as a naming convention (`display.top` for
/// a display zone), not as a new addressing level: each dot-separated segment
/// must be a valid plain id.
pub fn is_valid_entity_local_id(s: &str) -> (valid: bool)
    ensures
        valid == valid_local_id(s@),
{
    let n: usize = s.unicode_len();
    let mut start: usize = 0;
    let mut i: usize = 0;
    loop
        invariant
            n == s@.len(),
            start <= i <= n,
            start == 0 || s@[start - 1] == '.',
            forall|k: int| start <= k < i ==> s@[k] != '.',
            forall|a: int, b: int|
                #[trigger] is_segment(s@, a, b) && b < start ==> valid_id(s@.subrange(a, b)),
            forall|k: int| start <= k < i ==> is_id_char(#[trigger] s@[k]),
            start < i ==> is_lower(s@[start as int]),
        decreases n - i,
    {
        if i == n || s.get_char(i) == '.' {
            let ghost segment = s@.subrange(start as int, i as int);
            assert(is_segment(s@, start as int, i as int));
            if start == i {
                assert(segment.len() == 0);
                return false;
            }
            assert(segment[0] == s@[start as int]);
            assert forall|a: int, b: int| #[trigger]
                is_segment(s@, a, b) && b < i + 1 implies valid_id(s@.subrange(a, b)) by {
                if b >= start {
                    lemma_same_segment(s@, start as int, i as int, a, b);
                }
            }
            if i == n {
                return true;
            }
            start = i + 1;
        } else {
            let c: char = s.get_char(i);
            if !(if i == start {
                exec_is_lower(c)
            } else {
                exec_is_id_char(c)
            }) {
                proof {
                    lemma_bad_char(s@, start as int, i as int);
                }
                return false;
            }
        }
        i += 1;
    }
}

proof fn lemma_same_segment(s: Seq<char>, start: int, end: int, a: int, b: int)
    requires
        is_segment(s, start, end),
        is_segment(s, a, b),
        start <= b <= end,
    ensures
        a == start,
        b == end,
{
    if b < end {
        assert(s[b] == '.');
    }
    if a < start {
        assert(s[start - 1] == '.');
    }
    if a > start {
        assert(s[a - 1] == '.');
    }
}

/// A character that may not stand where it does spoils the whole id.
proof fn lemma_bad_char(s: Seq<char>, start: int, i: int)
    requires
        0 <= start <= i < s.len(),
        start == 0 || s[start - 1] == '.',
        forall|k: int| start <= k < i ==> s[k] != '.',
        s[i] != '.',
        if i == start {
            !is_lower(s[i])
        } else {
            !is_id_char(s[i])
        },
    ensures
        !valid_local_id(s),
{
    let end = segment_end(s, i);
    lemma_segment_end(s, i);
    assert(is_segment(s, start, end));
    assert(s.subrange(start, end)[i - start] == s[i]);
}

/// The first dot at or after `i`, or the end.
spec fn segment_end(s: Seq<char>, i: int) -> int
    decreases s.len() - i,
{
    if i >= s.len() || s[i] == '.' {
        i
    } else {
        segment_end(s, i + 1)
    }
}

proof fn lemma_segment_end(s: Seq<char>, i: int)
    requires
        0 <= i <= s.len(),
    ensures
        i <= segment_end(s, i) <= s.len(),
        segment_end(s, i) == s.len() || s[segment_end(s, i)] == '.',
        forall|k: int| i <= k < segment_end(s, i) ==> s[k] != '.',
    decreases s.len() - i,
{
    if i < s.len() && s[i] != '.' {
        lemma_segment_end(s, i + 1);
    }
}

/// Identifier of a device (`gateway`, `phone`, ...).
#[derive(Debug, Eq, Hash, PartialOrd, Ord)]
pub struct DeviceId(String);

impl View for DeviceId {
    type V = Seq<char>;

    closed spec fn view(&self) -> Seq<char> {
        self.0@
    }
}

impl DeviceId {
    #[verifier::type_invariant]
    spec fn inv(self) -> bool {
        valid_id(self.0@)
    }

    pub fn new(id: &str) -> (made: Result<Self, IdParseError>)
        ensures
            match made {
                Ok(device) => valid_id(id@) && device@ == id@,
                Err(e) => !valid_id(id@) && e@ == IdFault::InvalidId(id@),
            },
    {
        if is_valid_id(id) {
            Ok(DeviceId(id.to_owned()))
        } else {
            Err(IdParseError::InvalidId(id.to_owned()))
        }
    }

    pub fn as_str(&self) -> (s: &str)
        ensures
            s@ == self@,
            valid_id(self@),
    {
        proof {
            use_type_invariant(self);
        }
        self.0.as_str()
    }

    /// The id written out.
    pub fn to_string(&self) -> (s: String)
        ensures
            s@ == self@,
    {
        self.0.clone()
    }
}

impl Clone for DeviceId {
    fn clone(&self) -> (copy: Self)
        ensures
            copy == *self,
    {
        proof {
            use_type_invariant(self);
        }
        DeviceId(self.0.clone())
    }
}

impl PartialEq for DeviceId {
    fn eq(&self, other: &Self) -> (same: bool) {
        self.0 == other.0
    }
}

impl vstd::std_specs::cmp::PartialEqSpecImpl for DeviceId {
    open spec fn obeys_eq_spec() -> bool {
        true
    }

    open spec fn eq_spec(&self, other: &Self) -> bool {
        self@ == other@
    }
}

/// Fully qualified entity address: `device_id.entity_id` (e.g. `gateway.rpm`).
///
/// Entities are always referenced through this two-part address, never by bare
/// entity type, so several devices can expose the same entity type without
/// ambiguity. The entity-local part may itself contain dots as a naming
/// convention (`gateway.display.top` = device `gateway`, entity `display.top`);
/// the first dot is the only addressing-level separator.
#[derive(Debug, Eq, Hash, PartialOrd, Ord)]
pub struct EntityId {
    device: DeviceId,
    entity: String,
}

impl View for EntityId {
    type V = EntityAddress;

    closed spec fn view(&self) -> EntityAddress {
        EntityAddress { device: self.device@, entity: self.entity@ }
    }
}

impl EntityId {
    #[verifier::type_invariant]
    spec fn inv(self) -> bool {
        valid_local_id(self.entity@)
    }

    pub fn new(device: DeviceId, entity: &str) -> (made: Result<Self, IdParseError>)
        ensures
            match made {
                Ok(id) => valid_local_id(entity@) && id@ == (EntityAddress {
                    device: device@,
                    entity: entity@,
                }),
                Err(e) => !valid_local_id(entity@) && e@ == IdFault::InvalidId(entity@),
            },
    {
        if is_valid_entity_local_id(entity) {
            Ok(EntityId { device, entity: entity.to_owned() })
        } else {
            Err(IdParseError::InvalidId(entity.to_owned()))
        }
    }

    pub fn device(&self) -> (device: &DeviceId)
        ensures
            device@ == self@.device,
    {
        &self.device
    }

    /// The local (per-device) part of the address.
    pub fn entity(&self) -> (entity: &str)
        ensures
            entity@ == self@.entity,
            valid_address(self@),
    {
        proof {
            use_type_invariant(self);
        }
        let _ = self.device.as_str();
        self.entity.as_str()
    }

    /// The address written out.
    pub fn to_string(&self) -> (s: String)
        ensures
            s@ == address_text(self@),
            valid_address(self@),
    {
        proof {
            use_type_invariant(self);
            reveal_strlit(".");
        }
        let mut s: String = self.device.as_str().to_owned();
        s.append(".");
        s.append(self.entity.as_str());
        assert(s@ =~= address_text(self@));
        s
    }

    /// Parse an address.
    pub fn parse(s: &str) -> (parsed: Result<Self, IdParseError>)
        ensures
            match parsed {
                Ok(id) => parsed_address(s@) == Ok::<EntityAddress, IdFault>(id@),
                Err(e) => parsed_address(s@) == Err::<EntityAddress, IdFault>(e@),
            },
    {
        let n: usize = s.unicode_len();
        let mut dot: usize = 0;
        while dot < n && s.get_char(dot) != '.'
            invariant
                n == s@.len(),
                dot <= n,
                forall|k: int| 0 <= k < dot ==> s@[k] != '.',
            decreases n - dot,
        {
            dot += 1;
        }
        proof {
            s@.index_of_first_ensures('.');
        }
        if dot == n {
            return Err(IdParseError::InvalidAddress(s.to_owned()));
        }
        assert(s@.index_of_first('.') == Some(dot as int));
        match DeviceId::new(s.substring_char(0, dot)) {
            Ok(device) => EntityId::new(device, s.substring_char(dot + 1, n)),
            Err(e) => Err(e),
        }
    }
}

impl Clone for EntityId {
    fn clone(&self) -> (copy: Self)
        ensures
            copy == *self,
    {
        proof {
            use_type_invariant(self);
        }
        EntityId { device: self.device.clone(), entity: self.entity.clone() }
    }
}

impl PartialEq for EntityId {
    fn eq(&self, other: &Self) -> (same: bool) {
        let same = self.device == other.device && self.entity == other.entity;
        assert(same ==> self@ =~= other@);
        same
    }
}

impl vstd::std_specs::cmp::PartialEqSpecImpl for EntityId {
    open spec fn obeys_eq_spec() -> bool {
        true
    }

    open spec fn eq_spec(&self, other: &Self) -> bool {
        self@ == other@
    }
}

impl FromStr for EntityId {
    type Err = IdParseError;

    fn from_str(s: &str) -> (parsed: Result<Self, IdParseError>)
        ensures
            match parsed {
                Ok(id) => parsed_address(s@) == Ok::<EntityAddress, IdFault>(id@),
                Err(e) => parsed_address(s@) == Err::<EntityAddress, IdFault>(e@),
            },
    {
        EntityId::parse(s)
    }
}

/// Writing a valid address out and parsing it gives the address back.
pub proof fn law_address_round_trip(a: EntityAddress)
    requires
        valid_address(a),
    ensures
        parsed_address(address_text(a)) == Ok::<EntityAddress, IdFault>(a),
{
    let s = address_text(a);
    let dot = a.device.len() as int;
    assert(s[dot] == '.');
    assert forall|k: int| 0 <= k < dot implies s[k] != '.' by {
        assert(s[k] == a.device[k]);
    }
    s.index_of_first_ensures('.');
    assert(s.index_of_first('.') == Some(dot));
    assert(s.take(dot) =~= a.device);
    assert(s.skip(dot + 1) =~= a.entity);
}

/// Whatever parses is a valid address, and writing it out gives the parsed
/// string back.
pub proof fn law_parsed_address_is_canonical(s: Seq<char>)
    requires
        parsed_address(s) is Ok,
    ensures
        valid_address(parsed_address(s)->Ok_0),
        address_text(parsed_address(s)->Ok_0) == s,
{
    s.index_of_first_ensures('.');
    let dot = s.index_of_first('.')->0;
    assert(s.take(dot).push('.') + s.skip(dot + 1) =~= s);
}

/// Two different valid addresses are written differently.
pub proof fn law_address_text_is_unique(a: EntityAddress, b: EntityAddress)
    requires
        valid_address(a),
        valid_address(b),
        address_text(a) == address_text(b),
    ensures
        a == b,
{
    law_address_round_trip(a);
    law_address_round_trip(b);
}

/// A plain id starts with one of the lowercase letters `a` to `z` and goes on with
/// those, the digits `0` to `9` and underscores; nothing else is one. (Characters by
/// their code points.)
pub proof fn law_plain_ids_by_code_point(s: Seq<char>)
    ensures
        valid_id(s) <==> {
            &&& s.len() >= 1
            &&& 97 <= s[0] as int <= 122
            &&& forall|i: int|
                0 <= i < s.len() ==> {
                    let c = #[trigger] s[i] as int;
                    97 <= c <= 122 || 48 <= c <= 57 || c == 95
                }
        },
{
}

/// An id without dots is a local id exactly if it is a plain one.
pub proof fn law_dotless_local_ids_are_plain(s: Seq<char>)
    requires
        !s.contains('.'),
    ensures
        valid_local_id(s) <==> valid_id(s),
{
    assert forall|k: int| 0 <= k < s.len() implies #[trigger] s[k] != '.' by {
        assert(s.contains(s[k]));
    }
    assert(is_segment(s, 0, s.len() as int));
    assert(s.subrange(0, s.len() as int) =~= s);
    assert forall|i: int, j: int| #[trigger] is_segment(s, i, j) implies i == 0 && j == s.len() by {
        if i > 0 {
            assert(s[i - 1] == '.');
        }
        if j < s.len() {
            assert(s[j] == '.');
        }
    }
}

/// Two texts joined by a dot are a local id exactly if both are.
pub proof fn law_local_ids_are_joined_by_dots(a: Seq<char>, b: Seq<char>)
    ensures
        valid_local_id(a + seq!['.'] + b) <==> valid_local_id(a) && valid_local_id(b),
{
    let s = a + seq!['.'] + b;
    let n = a.len() as int;
    assert(s[n] == '.');
    assert forall|i: int, j: int| #[trigger] is_segment(a, i, j) implies is_segment(s, i, j)
        && s.subrange(i, j) == a.subrange(i, j) by {
        assert forall|k: int| i <= k < j implies #[trigger] s[k] != '.' by {
            assert(s[k] == a[k]);
        }
        assert(s.subrange(i, j) =~= a.subrange(i, j));
    }
    assert forall|i: int, j: int| #[trigger] is_segment(b, i, j) implies is_segment(
        s,
        i + n + 1,
        j + n + 1,
    ) && s.subrange(i + n + 1, j + n + 1) == b.subrange(i, j) by {
        assert forall|k: int| i + n + 1 <= k < j + n + 1 implies #[trigger] s[k] != '.' by {
            assert(s[k] == b[k - n - 1]);
        }
        assert(s.subrange(i + n + 1, j + n + 1) =~= b.subrange(i, j));
    }
    assert forall|i: int, j: int| #[trigger] is_segment(s, i, j) implies if j <= n {
        is_segment(a, i, j) && s.subrange(i, j) == a.subrange(i, j)
    } else {
        is_segment(b, i - n - 1, j - n - 1) && s.subrange(i, j) == b.subrange(
            i - n - 1,
            j - n - 1,
        )
    } by {
        if j <= n {
            assert forall|k: int| i <= k < j implies #[trigger] a[k] != '.' by {
                assert(a[k] == s[k]);
            }
            assert(s.subrange(i, j) =~= a.subrange(i, j));
        } else {
            if i <= n {
                assert(s[n] != '.');
            }
            assert forall|k: int| i - n - 1 <= k < j - n - 1 implies #[trigger] b[k] != '.' by {
                assert(b[k] == s[k + n + 1]);
            }
            assert(s.subrange(i, j) =~= b.subrange(i - n - 1, j - n - 1));
        }
    }
    if valid_local_id(s) {
        assert forall|i: int, j: int| #[trigger] is_segment(a, i, j) implies valid_id(
            a.subrange(i, j),
        ) by {
            assert(is_segment(s, i, j));
        }
        assert forall|i: int, j: int| #[trigger] is_segment(b, i, j) implies valid_id(
            b.subrange(i, j),
        ) by {
            assert(is_segment(s, i + n + 1, j + n + 1));
        }
    }
    if valid_local_id(a) && valid_local_id(b) {
        assert forall|i: int, j: int| #[trigger] is_segment(s, i, j) implies valid_id(
            s.subrange(i, j),
        ) by {
            if j <= n {
                assert(is_segment(a, i, j));
            } else {
                assert(is_segment(b, i - n - 1, j - n - 1));
            }
        }
    }
}

/// A text parses as an address exactly if it is a plain id, a dot and a local id, and
/// then as the two of them.
pub proof fn law_addresses_parse_by_their_parts(s: Seq<char>, device: Seq<char>, entity: Seq<char>)
    ensures
        parsed_address(s) == Ok::<EntityAddress, IdFault>(EntityAddress { device, entity })
            <==> valid_id(device) && valid_local_id(entity) && s == device + seq!['.'] + entity,
{
    let a = EntityAddress { device, entity };
    if parsed_address(s) == Ok::<EntityAddress, IdFault>(a) {
        law_parsed_address_is_canonical(s);
        assert(s =~= device + seq!['.'] + entity);
    }
    if valid_id(device) && valid_local_id(entity) && s == device + seq!['.'] + entity {
        assert(s =~= address_text(a));
        law_address_round_trip(a);
    }
}

/// What is wrong with a text that is no address: that it has no dot; or else the part
/// before the first dot, if that is no plain id; or else what follows it.
pub proof fn law_address_faults_name_the_part(s: Seq<char>, device: Seq<char>, entity: Seq<char>)
    requires
        !device.contains('.'),
    ensures
        !s.contains('.') ==> parsed_address(s) == Err::<EntityAddress, IdFault>(
            IdFault::InvalidAddress(s),
        ),
        s == device + seq!['.'] + entity && !valid_id(device) ==> parsed_address(s) == Err::<
            EntityAddress,
            IdFault,
        >(IdFault::InvalidId(device)),
        s == device + seq!['.'] + entity && valid_id(device) && !valid_local_id(entity)
            ==> parsed_address(s) == Err::<EntityAddress, IdFault>(IdFault::InvalidId(entity)),
{
    s.index_of_first_ensures('.');
    if s == device + seq!['.'] + entity {
        let dot = device.len() as int;
        assert(s[dot] == '.');
        assert(s.contains('.'));
        assert forall|k: int| 0 <= k < dot implies s[k] != '.' by {
            assert(device[k] == s[k]);
            assert(device.contains(device[k]));
        }
        assert(s.index_of_first('.') == Some(dot));
        assert(s.take(dot) =~= device);
        assert(s.skip(dot + 1) =~= entity);
    }
}

/// An address is written out as its two parts with a dot between them.
pub proof fn law_addresses_are_written_in_two_parts(a: EntityAddress)
    ensures
        address_text(a) == a.device + seq!['.'] + a.entity,
{
    assert(address_text(a) =~= a.device + seq!['.'] + a.entity);
}

} // verus!
