//! Fingerprints of patterns.

use vstd::prelude::*;
use crate::digest;
use crate::ids;
use crate::ids::Uuid;
use crate::mining::ALGORITHM_VERSION;

verus! {

/// The four bytes of a number, the most significant first.
pub open spec fn be_bytes(n: u32) -> Seq<u8> {
    seq![
        (n / 0x100_0000) as u8,
        ((n / 0x1_0000) % 0x100) as u8,
        ((n / 0x100) % 0x100) as u8,
        (n % 0x100) as u8,
    ]
}

/// The bytes of the first `n` identifiers, one after the other.
pub open spec fn id_bytes(ids: Seq<Uuid>, n: int) -> Seq<u8>
    decreases n,
{
    if n <= 0 {
        Seq::empty()
    } else {
        id_bytes(ids, n - 1) + ids[n - 1].bytes()
    }
}

/// What a fingerprint is taken of: the algorithm version and the actions, each with its
/// length in front, and the identifiers alone.
pub open spec fn fingerprint_input(workspace: Uuid, actions: Seq<Uuid>) -> Seq<u8> {
    let version = vstd::utf8::encode_utf8(ALGORITHM_VERSION@);
    be_bytes(version.len() as u32) + version + workspace.bytes() + be_bytes(actions.len() as u32)
        + id_bytes(actions, actions.len() as int)
}

pub open spec fn fingerprint_of(workspace: Uuid, actions: Seq<Uuid>) -> Seq<char> {
    digest::hex_of(digest::sha256_of(fingerprint_input(workspace, actions)))
}

fn push_all(target: &mut Vec<u8>, bytes: &[u8])
    ensures
        final(target)@ == old(target)@ + bytes@,
{
    let ghost start = target@;
    for i in 0..bytes.len()
        invariant
            target@ == start + bytes@.take(i as int),
    {
        target.push(bytes[i]);
        proof {
            assert(bytes@.take(i + 1) =~= bytes@.take(i as int).push(bytes@[i as int]));
            assert(target@ =~= start + bytes@.take(i + 1));
        }
    }
    proof {
        assert(bytes@.take(bytes@.len() as int) =~= bytes@);
    }
}

fn push_be(target: &mut Vec<u8>, n: u32)
    ensures
        final(target)@ == old(target)@ + be_bytes(n),
{
    let ghost start = target@;
    target.push((n / 0x100_0000) as u8);
    target.push(((n / 0x1_0000) % 0x100) as u8);
    target.push(((n / 0x100) % 0x100) as u8);
    target.push((n % 0x100) as u8);
    proof {
        assert(target@ =~= start + be_bytes(n));
    }
}

/// The fingerprint of a pattern: the workspace and the actions in their order.
pub fn fingerprint(workspace: Uuid, actions: &[Uuid]) -> (text: String)
    ensures
        text@ == fingerprint_of(workspace, actions@),
        text@.len() == 64,
{
    let version = ALGORITHM_VERSION.as_bytes();
    let mut bytes: Vec<u8> = Vec::new();
    push_be(&mut bytes, version.len() as u32);
    push_all(&mut bytes, version);
    push_all(&mut bytes, workspace.to_bytes().as_slice());
    push_be(&mut bytes, actions.len() as u32);
    let ghost head = bytes@;
    proof {
        let encoded = vstd::utf8::encode_utf8(ALGORITHM_VERSION@);
        assert(head =~= be_bytes(encoded.len() as u32) + encoded + workspace.bytes() + be_bytes(
            actions@.len() as u32,
        ));
    }
    for i in 0..actions.len()
        invariant
            bytes@ == head + id_bytes(actions@, i as int),
    {
        push_all(&mut bytes, actions[i].to_bytes().as_slice());
        proof {
            assert(bytes@ =~= head + id_bytes(actions@, i + 1));
        }
    }
    digest::hex(digest::sha256(bytes.as_slice()).as_slice())
}

proof fn be_bytes_injective(a: u32, b: u32)
    ensures
        be_bytes(a) == be_bytes(b) ==> a == b,
{
    if be_bytes(a) == be_bytes(b) {
        assert(be_bytes(a)[0] == be_bytes(b)[0]);
        assert(be_bytes(a)[1] == be_bytes(b)[1]);
        assert(be_bytes(a)[2] == be_bytes(b)[2]);
        assert(be_bytes(a)[3] == be_bytes(b)[3]);
    }
}

proof fn id_bytes_len(ids: Seq<Uuid>, n: int)
    requires
        0 <= n <= ids.len(),
    ensures
        id_bytes(ids, n).len() == 16 * n,
    decreases n,
{
    if n > 0 {
        id_bytes_len(ids, n - 1);
    }
}

proof fn id_bytes_injective(a: Seq<Uuid>, b: Seq<Uuid>, n: int)
    requires
        0 <= n <= a.len(),
        n <= b.len(),
        id_bytes(a, n) == id_bytes(b, n),
    ensures
        forall|i: int| 0 <= i < n ==> a[i] == b[i],
    decreases n,
{
    if n > 0 {
        id_bytes_len(a, n - 1);
        id_bytes_len(b, n - 1);
        let x = id_bytes(a, n);
        let y = id_bytes(b, n);
        assert(x.take(16 * (n - 1)) =~= id_bytes(a, n - 1));
        assert(y.take(16 * (n - 1)) =~= id_bytes(b, n - 1));
        assert(x.skip(16 * (n - 1)) =~= a[n - 1].bytes());
        assert(y.skip(16 * (n - 1)) =~= b[n - 1].bytes());
        id_bytes_injective(a, b, n - 1);
        ids::id_bytes_injective(a[n - 1], b[n - 1]);
    }
}

/// Different patterns have different fingerprint inputs: another workspace, another
/// action or another order of the actions changes what is digested.
pub proof fn fingerprint_input_injective(
    workspace: Uuid,
    actions: Seq<Uuid>,
    other_workspace: Uuid,
    other_actions: Seq<Uuid>,
)
    requires
        actions.len() <= u32::MAX,
        other_actions.len() <= u32::MAX,
        fingerprint_input(workspace, actions) == fingerprint_input(other_workspace, other_actions),
    ensures
        workspace == other_workspace,
        actions == other_actions,
{
    let version = vstd::utf8::encode_utf8(ALGORITHM_VERSION@);
    let v = version.len() as int;
    let x = fingerprint_input(workspace, actions);
    let y = fingerprint_input(other_workspace, other_actions);
    let n = actions.len() as int;
    let m = other_actions.len() as int;
    id_bytes_len(actions, n);
    id_bytes_len(other_actions, m);
    assert(x.subrange(4 + v, 20 + v) =~= workspace.bytes());
    assert(y.subrange(4 + v, 20 + v) =~= other_workspace.bytes());
    ids::id_bytes_injective(workspace, other_workspace);
    assert(x.subrange(20 + v, 24 + v) =~= be_bytes(n as u32));
    assert(y.subrange(20 + v, 24 + v) =~= be_bytes(m as u32));
    be_bytes_injective(n as u32, m as u32);
    assert(x.skip(24 + v) =~= id_bytes(actions, n));
    assert(y.skip(24 + v) =~= id_bytes(other_actions, m));
    id_bytes_injective(actions, other_actions, n);
    assert(actions =~= other_actions);
}

} // verus!
