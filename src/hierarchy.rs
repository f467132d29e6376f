use vstd::prelude::*;
use crate::reader::DecodeError;

verus! {

/// How many slots the bone table has; bone ids are below this.
pub const BONE_CAPACITY: usize = 255;

/// The child lists of a table of lists.
pub open spec fn rows(adj: Seq<Vec<u32>>) -> Seq<Seq<u32>> {
    adj.map_values(|v: Vec<u32>| v@)
}

/// Parses one hierarchy node at `off`: a bone id byte, a child count byte, then that
/// many child nodes. Each child's id is appended to the node's list in `adj`. Gives the
/// offset after the node, its id, and the lists.
pub open spec fn parse_node(b: Seq<u8>, off: int, adj: Seq<Seq<u32>>) -> Result<
    (int, u8, Seq<Seq<u32>>),
    DecodeError,
>
    decreases b.len() - off, 0nat,
{
    if 0 <= off && off + 2 <= b.len() {
        let id = b[off];
        if id as int >= BONE_CAPACITY {
            Err(DecodeError::OutOfRangeId)
        } else {
            match parse_children(b, off + 2, b[off + 1] as nat, id, adj) {
                Ok((o, a)) => Ok((o, id, a)),
                Err(e) => Err(e),
            }
        }
    } else {
        Err(DecodeError::MalformedInput)
    }
}

/// Parses `n` child nodes from `off`, appending each child's id to `parent`'s list.
pub open spec fn parse_children(b: Seq<u8>, off: int, n: nat, parent: u8, adj: Seq<Seq<u32>>) -> Result<
    (int, Seq<Seq<u32>>),
    DecodeError,
>
    decreases b.len() - off, n + 1,
{
    if n == 0 {
        Ok((off, adj))
    } else if 0 <= off < b.len() && parent < adj.len() {
        match parse_node(b, off, adj) {
            Ok((o, c, a)) => if off < o <= b.len() {
                parse_children(b, o, (n - 1) as nat, parent, a.update(parent as int, a[parent as int].push(c as u32)))
            } else {
                Err(DecodeError::MalformedInput)
            },
            Err(e) => Err(e),
        }
    } else {
        Err(DecodeError::MalformedInput)
    }
}

/// Parses a hierarchy node from `off` into the child lists `adj`, giving the offset after
/// it and its id.
pub fn read_node(b: &[u8], off: usize, adj: &mut Vec<Vec<u32>>) -> (r: Result<(usize, u8), DecodeError>)
    requires
        old(adj)@.len() == BONE_CAPACITY,
    ensures
        final(adj)@.len() == BONE_CAPACITY,
        match parse_node(b@, off as int, rows(old(adj)@)) {
            Ok((o, id, a)) => r matches Ok((p, i)) && p as int == o && i == id && rows(final(adj)@) == a,
            Err(e) => r == Err::<(usize, u8), DecodeError>(e),
        },
    decreases b@.len() - off, 0nat,
{
    let len = b.len();
    if off > len || len - off < 2 {
        return Err(DecodeError::MalformedInput);
    }
    let id = b[off];
    if id as usize >= BONE_CAPACITY {
        return Err(DecodeError::OutOfRangeId);
    }
    let n = b[off + 1];
    let ghost b0 = b@;
    let ghost a0 = rows(adj@);
    assert(parse_node(b0, off as int, a0) == match parse_children(b0, off + 2, n as nat, id, a0) {
        Ok((o, a)) => Ok((o, id, a)),
        Err(e) => Err::<(int, u8, Seq<Seq<u32>>), DecodeError>(e),
    });
    let mut cur = off + 2;
    let mut i: u8 = 0;
    while i < n
        invariant
            b0 == b@,
            a0 == rows(old(adj)@),
            len == b@.len(),
            off + 2 <= cur <= len,
            i <= n,
            n == b@[off + 1],
            (id as int) < BONE_CAPACITY,
            adj@.len() == BONE_CAPACITY,
            parse_node(b0, off as int, a0) == match parse_children(b0, off + 2, n as nat, id, a0) {
                Ok((o, a)) => Ok((o, id, a)),
                Err(e) => Err::<(int, u8, Seq<Seq<u32>>), DecodeError>(e),
            },
            parse_children(b0, off + 2, n as nat, id, a0) == parse_children(
                b0,
                cur as int,
                (n - i) as nat,
                id,
                rows(adj@),
            ),
        decreases n - i,
    {
        if cur >= len {
            return Err(DecodeError::MalformedInput);
        }
        let ghost before = rows(adj@);
        let (next, child) = match read_node(b, cur, adj) {
            Ok(x) => x,
            Err(e) => return Err(e),
        };
        if next <= cur || next > len {
            return Err(DecodeError::MalformedInput);
        }
        let ghost mid = rows(adj@);
        adj[id as usize].push(child as u32);
        proof {
            assert(rows(adj@) =~= mid.update(id as int, mid[id as int].push(child as u32)));
        }
        cur = next;
        i = i + 1;
    }
    Ok((cur, id))
}

} // verus!
