//! Properties that relate several calls or hold for all inputs.

use vstd::prelude::*;

use crate::client::{CanOpenFrame, Error, NodeId, Pdo, classified};
use crate::eds::{
    LoadFault, Tables, info_of, lemma_failure_stays, load_prefix, load_section, section_cobid, u8_of,
    variable_of,
};
use crate::pdo::{MappedPdo, decoded, decodes_to, item_view, lemma_decoded_len};
use crate::sections::prop_of;
use crate::types::{CobId, DataType, ValueType};

verus! {

/// Any frame on function code 0x180 is a transmit PDO 1 message of the node given by the
/// identifier's low seven bits.
pub proof fn law_tpdo1_node(
    n: u32,
    payload: Seq<u8>,
    dlc: usize,
    r: Result<(Option<NodeId>, CanOpenFrame), Error>,
)
    requires
        n <= 0x7F,
        classified((0x180 + n) as u32, payload, dlc, r),
    ensures
        r matches Ok((Some(node), CanOpenFrame::Pdo(Pdo::Tx1, _))) && node == NodeId(n as u8),
{
    assert(((0x180 + n) as u32) % 128 == n);
}

/// Where the bytes run short for the slot at position `k`, counting from byte `offset`,
/// that slot and all after it read nothing.
pub open spec fn runs_short(entries: Seq<(MappedPdo, DataType)>, data: Seq<u8>, offset: int, k: int) -> bool
    decreases k,
{
    if k <= 0 {
        offset + entries[0].0.1 > data.len()
    } else {
        offset + entries[0].0.1 > data.len() || runs_short(
            entries.drop_first(),
            data,
            offset + entries[0].0.1,
            k - 1,
        )
    }
}

/// A slot whose length exceeds the bytes that remain reads nothing, and neither does any
/// slot after it.
pub proof fn law_short_payload(entries: Seq<(MappedPdo, DataType)>, data: Seq<u8>, offset: int, k: int)
    requires
        0 <= k < entries.len(),
        runs_short(entries, data, offset, k),
    ensures
        forall|j: int| k <= j < entries.len() ==> #[trigger] decoded(entries, data, offset)[j] is None,
    decreases k,
{
    let end = offset + entries[0].0.1;
    if end > data.len() {
    } else {
        law_short_payload(entries.drop_first(), data, end, k - 1);
        lemma_decoded_len(entries.drop_first(), data, end);
        assert forall|j: int| k <= j < entries.len() implies #[trigger] decoded(entries, data, offset)[j] is None by {
            assert(decoded(entries, data, offset)[j] == decoded(entries.drop_first(), data, end)[j - 1]);
        }
    }
}

/// Decoding is a function of the decoder table and the payload: two decodings of the
/// same payload agree.
pub proof fn law_decode_repeatable(
    mapping: Seq<Option<(MappedPdo, DataType)>>,
    data: Seq<u8>,
    first: Seq<Option<(CobId, ValueType)>>,
    second: Seq<Option<(CobId, ValueType)>>,
)
    requires
        decodes_to(mapping, data, first),
        decodes_to(mapping, data, second),
    ensures
        forall|i: int| 0 <= i < 8 ==> #[trigger] item_view(first[i]) == item_view(second[i]),
{
}

/// A section that declares a variable at a valid address but whose fields do not read.
pub open spec fn malformed_variable(sec: (Option<Seq<char>>, Seq<(Seq<char>, Seq<char>)>)) -> bool {
    &&& sec.0 is Some
    &&& section_cobid(sec.0->0) is Some
    &&& prop_of(sec.1, "ObjectType"@) is Some
    &&& u8_of(prop_of(sec.1, "ObjectType"@)->0) == Some(7u8)
    &&& variable_of(sec.1) is None
}

/// A section that declares an array or a record at a valid address but lacks its name or
/// member count, or whose member count does not read.
pub open spec fn malformed_group(sec: (Option<Seq<char>>, Seq<(Seq<char>, Seq<char>)>)) -> bool {
    &&& sec.0 is Some
    &&& section_cobid(sec.0->0) is Some
    &&& prop_of(sec.1, "ObjectType"@) is Some
    &&& (u8_of(prop_of(sec.1, "ObjectType"@)->0) == Some(8u8) || u8_of(
        prop_of(sec.1, "ObjectType"@)->0,
    ) == Some(9u8))
    &&& info_of(sec.1) is Err
}

/// Loading with a malformed variable section gives what loading without it gives.
pub proof fn law_malformed_variable_omitted(
    secs: Seq<(Option<Seq<char>>, Seq<(Seq<char>, Seq<char>)>)>,
    i: int,
)
    requires
        0 <= i < secs.len(),
        malformed_variable(secs[i]),
    ensures
        load_prefix(secs, secs.len() as int) == load_prefix(secs.remove(i), secs.len() - 1),
{
    lemma_omit_prefix(secs, i, secs.len() as int);
}

proof fn lemma_omit_prefix(
    secs: Seq<(Option<Seq<char>>, Seq<(Seq<char>, Seq<char>)>)>,
    i: int,
    n: int,
)
    requires
        0 <= i < n <= secs.len(),
        malformed_variable(secs[i]),
    ensures
        load_prefix(secs, n) == load_prefix(secs.remove(i), n - 1),
    decreases n,
{
    let rest = secs.remove(i);
    if n == i + 1 {
        lemma_same_prefix(secs, rest, i);
        match load_prefix(secs, i) {
            Ok(st) => {
                assert(load_section(st, secs[i]) == Ok::<Tables, LoadFault>(st));
            },
            Err(_) => {},
        }
    } else {
        lemma_omit_prefix(secs, i, n - 1);
        assert(secs[n - 1] == rest[n - 2]);
    }
}

proof fn lemma_same_prefix(
    a: Seq<(Option<Seq<char>>, Seq<(Seq<char>, Seq<char>)>)>,
    b: Seq<(Option<Seq<char>>, Seq<(Seq<char>, Seq<char>)>)>,
    n: int,
)
    requires
        0 <= n <= a.len(),
        n <= b.len(),
        forall|j: int| 0 <= j < n ==> a[j] == b[j],
    ensures
        load_prefix(a, n) == load_prefix(b, n),
    decreases n,
{
    if n > 0 {
        lemma_same_prefix(a, b, n - 1);
    }
}

/// A malformed array or record section fails the whole load.
pub proof fn law_malformed_group_fails(
    secs: Seq<(Option<Seq<char>>, Seq<(Seq<char>, Seq<char>)>)>,
    i: int,
)
    requires
        0 <= i < secs.len(),
        malformed_group(secs[i]),
    ensures
        load_prefix(secs, secs.len() as int) is Err,
{
    assert(load_prefix(secs, i + 1) is Err);
    lemma_failure_stays(secs, i + 1, secs.len() as int);
}


/// `sec` names the address with key `k` and describes a variable that reads well.
pub open spec fn defines_variable(
    sec: (Option<Seq<char>>, Seq<(Seq<char>, Seq<char>)>),
    k: u32,
) -> bool {
    &&& sec.0 is Some
    &&& section_cobid(sec.0->0) matches Some(c) && c.spec_key() == k
    &&& variable_of(sec.1) is Some
}

/// Every variable entry of a load comes from a section that defines it.
proof fn lemma_variable_sources(
    secs: Seq<(Option<Seq<char>>, Seq<(Seq<char>, Seq<char>)>)>,
    n: int,
)
    requires
        0 <= n <= secs.len(),
    ensures
        load_prefix(secs, n) matches Ok(t) ==> forall|k: u32|
            #[trigger] t.0.contains_key(k) ==> exists|j: int|
                0 <= j < n && defines_variable(secs[j], k),
    decreases n,
{
    if n > 0 {
        lemma_variable_sources(secs, n - 1);
        if let Ok(t) = load_prefix(secs, n) {
            let prev = load_prefix(secs, n - 1)->Ok_0;
            assert forall|k: u32| #[trigger] t.0.contains_key(k) implies exists|j: int|
                0 <= j < n && defines_variable(secs[j], k) by {
                if prev.0.contains_key(k) {
                    let j = choose|j: int| 0 <= j < n - 1 && defines_variable(secs[j], k);
                    assert(0 <= j < n && defines_variable(secs[j], k));
                } else {
                    assert(defines_variable(secs[n - 1], k));
                }
            }
        }
    }
}

/// No section defines a variable at the address of a malformed variable section that
/// no other section names.
proof fn lemma_no_source(
    secs: Seq<(Option<Seq<char>>, Seq<(Seq<char>, Seq<char>)>)>,
    i: int,
    c: CobId,
)
    requires
        0 <= i < secs.len(),
        variable_of(secs[i].1) is None,
        forall|j: int|
            0 <= j < secs.len() && j != i && #[trigger] secs[j].0 is Some ==> section_cobid(
                secs[j].0->0,
            ) != Some(c),
    ensures
        forall|j: int| 0 <= j < secs.len() ==> !#[trigger] defines_variable(secs[j], c.spec_key()),
{
    assert forall|j: int| 0 <= j < secs.len() implies !#[trigger] defines_variable(secs[j], c.spec_key()) by {
        if j != i && defines_variable(secs[j], c.spec_key()) {
            let d = section_cobid(secs[j].0->0)->0;
            assert(d.0 as int * 256 + d.1 as int == c.0 as int * 256 + c.1 as int);
            assert(d == c);
        }
    }
}

/// A malformed variable section leaves no variable at its address, unless another
/// section defines one there: where none does, a successful load has no object at that
/// address.
pub proof fn law_malformed_variable_absent(
    secs: Seq<(Option<Seq<char>>, Seq<(Seq<char>, Seq<char>)>)>,
    i: int,
)
    requires
        0 <= i < secs.len(),
        malformed_variable(secs[i]),
        forall|j: int|
            0 <= j < secs.len() && j != i && #[trigger] secs[j].0 is Some ==> section_cobid(
                secs[j].0->0,
            ) != section_cobid(secs[i].0->0),
    ensures
        load_prefix(secs, secs.len() as int) matches Ok(t) ==> !t.0.contains_key(
            section_cobid(secs[i].0->0)->0.spec_key(),
        ),
{
    let c = section_cobid(secs[i].0->0)->0;
    lemma_variable_sources(secs, secs.len() as int);
    lemma_no_source(secs, i, c);
}

} // verus!
