//! The assembly of a file: each part's bytes are put at the part's place in
//! the output, in whatever order the bodies of the chunks arrive.

use crate::chunk::{
    checked_total_size, file_fault, file_ok, first_from, lemma_file_fault, lemma_first_from,
    lemma_total_size_grows, part_len, part_ok, plan_of, plan_view, total_size, ChunkDownload,
    FileChunkPart, FileChunkView, FileManifest, ManifestContext,
};
use crate::guid::FGuid;
use crate::{chunk_failure, file_failure, located, ErrorKind, Failure, ParserError, Place};
use vstd::prelude::*;

verus! {

/// Whether a piece of `size` bytes can be taken at `offset` of a body of
/// `body_len` bytes and put at `position` of an output of `out_len` bytes.
pub open spec fn fits(offset: nat, size: nat, position: nat, body_len: nat, out_len: nat) -> bool {
    offset + size <= body_len && position + size <= out_len
}

/// The output after `size` bytes from `offset` of `body` were put at
/// `position`: those bytes there, and every other byte as it was.
pub open spec fn placed(out: Seq<u8>, body: Seq<u8>, offset: nat, size: nat, position: nat) -> Seq<
    u8,
> {
    Seq::new(
        out.len(),
        |k: int|
            if position <= k < position + size {
                body[offset + k - position]
            } else {
                out[k]
            },
    )
}

/// Puts the bytes that a piece of work asks for into the output. Where the
/// body or the output is too short for the piece, nothing is written.
pub fn place(output: &mut Vec<u8>, download: &ChunkDownload, body: &[u8]) -> (r: Result<
    (),
    ParserError,
>)
    ensures
        match r {
            Ok(_) => fits(
                download@.offset,
                download@.size,
                download@.position,
                body@.len(),
                old(output)@.len(),
            ) && final(output)@ == placed(
                old(output)@,
                body@,
                download@.offset,
                download@.size,
                download@.position,
            ),
            Err(e) => !fits(
                download@.offset,
                download@.size,
                download@.position,
                body@.len(),
                old(output)@.len(),
            ) && e@ == chunk_failure(ErrorKind::CorruptManifest, download.file_name@)
                && final(output)@ == old(output)@,
        },
{
    let size: usize = download.size;
    let offset: usize = download.offset;
    let position: usize = download.position;
    if offset > body.len() || size > body.len() - offset || position > output.len() || size
        > output.len() - position {
        return Err(
            ParserError::in_chunk(ErrorKind::CorruptManifest, download.file_name.as_str()),
        );
    }
    let mut k: usize = 0;
    while k < size
        invariant
            k <= size,
            offset + size <= body@.len() <= usize::MAX,
            position + size <= output@.len() <= usize::MAX,
            output@.len() == old(output)@.len(),
            forall|j: int|
                0 <= j < output@.len() ==> #[trigger] output@[j] == if position <= j < position
                    + k {
                    body@[offset + j - position]
                } else {
                    old(output)@[j]
                },
        decreases size - k,
    {
        output[position + k] = body[offset + k];
        k += 1;
    }
    assert(output@ =~= placed(old(output)@, body@, offset as nat, size as nat, position as nat));
    Ok(())
}

/// The bytes that a part takes from the body of its chunk.
pub open spec fn part_bytes(part: FileChunkPart, body: Seq<u8>) -> Seq<u8> {
    body.subrange(part.offset as int, part.offset + part.size)
}

/// Whether there is one body for each part, and each part lies within its
/// body.
pub open spec fn bodies_fit(parts: Seq<FileChunkPart>, bodies: Seq<Seq<u8>>) -> bool {
    &&& bodies.len() == parts.len()
    &&& forall|i: int|
        0 <= i < parts.len() ==> (#[trigger] parts[i]).offset >= 0 && parts[i].size >= 0
            && parts[i].offset + parts[i].size <= bodies[i].len()
}

/// The file: what each part takes from its body, one after another in the
/// order of the parts.
pub open spec fn assembled(parts: Seq<FileChunkPart>, bodies: Seq<Seq<u8>>) -> Seq<u8>
    decreases parts.len(),
{
    if parts.len() == 0 {
        Seq::empty()
    } else {
        assembled(parts.drop_last(), bodies.drop_last()) + part_bytes(parts.last(), bodies.last())
    }
}

/// Where the bytes of part `i` start in the file.
pub open spec fn start_of(parts: Seq<FileChunkPart>, i: int) -> nat {
    total_size(parts.subrange(0, i))
}

/// Whether byte `k` of the file comes from part `i`.
pub open spec fn covers(parts: Seq<FileChunkPart>, i: int, k: int) -> bool {
    start_of(parts, i) <= k < start_of(parts, i) + part_len(parts[i])
}

/// The output after the parts named by `order` were placed one after
/// another, each at its own start.
pub open spec fn placed_in_order(
    out: Seq<u8>,
    parts: Seq<FileChunkPart>,
    bodies: Seq<Seq<u8>>,
    order: Seq<int>,
) -> Seq<u8>
    decreases order.len(),
{
    if order.len() == 0 {
        out
    } else {
        let i = order.last();
        placed(
            placed_in_order(out, parts, bodies, order.drop_last()),
            bodies[i],
            parts[i].offset as nat,
            part_len(parts[i]),
            start_of(parts, i),
        )
    }
}

/// Whether one of the parts named by `order` gives byte `k` of the file.
pub open spec fn covered_by(parts: Seq<FileChunkPart>, order: Seq<int>, k: int) -> bool {
    exists|j: int| 0 <= j < order.len() && covers(parts, #[trigger] order[j], k)
}

/// Part `i` ends where part `i + 1` starts, and no later part starts before.
pub proof fn lemma_starts_ordered(parts: Seq<FileChunkPart>, i: int, j: int)
    requires
        0 <= i < j <= parts.len(),
    ensures
        start_of(parts, i) + part_len(parts[i]) <= start_of(parts, j),
{
    let upto = parts.subrange(0, j);
    assert(parts.subrange(0, i + 1).drop_last() =~= parts.subrange(0, i));
    assert(upto.subrange(0, i + 1) =~= parts.subrange(0, i + 1));
    lemma_total_size_grows(upto, i + 1);
}

/// The file is as long as its parts say.
pub proof fn lemma_assembled_len(parts: Seq<FileChunkPart>, bodies: Seq<Seq<u8>>)
    requires
        bodies_fit(parts, bodies),
    ensures
        assembled(parts, bodies).len() == total_size(parts),
    decreases parts.len(),
{
    if parts.len() > 0 {
        assert(bodies_fit(parts.drop_last(), bodies.drop_last()));
        lemma_assembled_len(parts.drop_last(), bodies.drop_last());
    }
}

/// A byte of the file that comes from part `i` is the byte of that part's
/// body that lies as far behind the part's offset.
pub proof fn lemma_assembled_at(parts: Seq<FileChunkPart>, bodies: Seq<Seq<u8>>, i: int, k: int)
    requires
        bodies_fit(parts, bodies),
        0 <= i < parts.len(),
        covers(parts, i, k),
    ensures
        0 <= k < assembled(parts, bodies).len(),
        assembled(parts, bodies)[k] == bodies[i][parts[i].offset + k - start_of(parts, i)],
    decreases parts.len(),
{
    let n = parts.len() as int;
    let front = parts.drop_last();
    let front_bodies = bodies.drop_last();
    assert(bodies_fit(front, front_bodies));
    lemma_assembled_len(parts, bodies);
    lemma_assembled_len(front, front_bodies);
    lemma_starts_ordered(parts, i, n);
    assert(parts.subrange(0, n) =~= parts);
    assert(parts.subrange(0, n - 1) =~= front);
    if i < n - 1 {
        assert(front.subrange(0, i) =~= parts.subrange(0, i));
        lemma_starts_ordered(parts, i, n - 1);
        lemma_assembled_at(front, front_bodies, i, k);
    }
}

/// Every byte of the file comes from some part.
pub proof fn lemma_some_part_covers(parts: Seq<FileChunkPart>, k: int)
    requires
        0 <= k < total_size(parts),
    ensures
        exists|i: int| 0 <= i < parts.len() && covers(parts, i, k),
    decreases parts.len(),
{
    let n = parts.len() as int;
    let front = parts.drop_last();
    assert(parts.subrange(0, n - 1) =~= front);
    if k >= total_size(front) {
        assert(covers(parts, n - 1, k));
    } else {
        lemma_some_part_covers(front, k);
        let i = choose|i: int| 0 <= i < front.len() && covers(front, i, k);
        assert(front.subrange(0, i) =~= parts.subrange(0, i));
        assert(covers(parts, i, k));
    }
}

/// After parts were placed in some order, a byte that one of them gives is
/// the byte of the file, and every other byte is as it was.
pub proof fn lemma_placed_in_order_at(
    out: Seq<u8>,
    parts: Seq<FileChunkPart>,
    bodies: Seq<Seq<u8>>,
    order: Seq<int>,
    k: int,
)
    requires
        bodies_fit(parts, bodies),
        out.len() == total_size(parts),
        forall|j: int| 0 <= j < order.len() ==> 0 <= #[trigger] order[j] < parts.len(),
        0 <= k < out.len(),
    ensures
        placed_in_order(out, parts, bodies, order).len() == out.len(),
        placed_in_order(out, parts, bodies, order)[k] == if covered_by(parts, order, k) {
            assembled(parts, bodies)[k]
        } else {
            out[k]
        },
    decreases order.len(),
{
    if order.len() > 0 {
        let earlier = order.drop_last();
        let i = order.last();
        lemma_placed_in_order_at(out, parts, bodies, earlier, k);
        if covers(parts, i, k) {
            assert(covers(parts, order[order.len() - 1], k));
            lemma_assembled_at(parts, bodies, i, k);
        } else if covered_by(parts, earlier, k) {
            let j = choose|j: int| 0 <= j < earlier.len() && covers(parts, #[trigger] earlier[j], k);
            assert(covers(parts, order[j], k));
        } else if covered_by(parts, order, k) {
            let j = choose|j: int| 0 <= j < order.len() && covers(parts, #[trigger] order[j], k);
            assert(covers(parts, earlier[j], k));
        }
    }
}

/// The order in which the parts of a file are placed does not matter: once
/// every part was placed, in whatever order and however often, the output is
/// the file.
pub proof fn lemma_any_order_assembles(
    out: Seq<u8>,
    parts: Seq<FileChunkPart>,
    bodies: Seq<Seq<u8>>,
    order: Seq<int>,
)
    requires
        bodies_fit(parts, bodies),
        out.len() == total_size(parts),
        forall|j: int| 0 <= j < order.len() ==> 0 <= #[trigger] order[j] < parts.len(),
        forall|i: int| 0 <= i < parts.len() ==> order.contains(i),
    ensures
        placed_in_order(out, parts, bodies, order) == assembled(parts, bodies),
{
    let result = placed_in_order(out, parts, bodies, order);
    lemma_assembled_len(parts, bodies);
    if out.len() > 0 {
        lemma_placed_in_order_at(out, parts, bodies, order, 0);
    } else {
        lemma_placed_len(out, parts, bodies, order);
    }
    assert forall|k: int| 0 <= k < result.len() implies result[k] == assembled(parts, bodies)[k] by {
        lemma_placed_in_order_at(out, parts, bodies, order, k);
        lemma_some_part_covers(parts, k);
        let i = choose|i: int| 0 <= i < parts.len() && covers(parts, i, k);
        assert(order.contains(i));
        let j = choose|j: int| 0 <= j < order.len() && order[j] == i;
        assert(covers(parts, order[j], k));
    }
    assert(result =~= assembled(parts, bodies));
}

/// Placing parts does not change the length of the output.
pub proof fn lemma_placed_len(
    out: Seq<u8>,
    parts: Seq<FileChunkPart>,
    bodies: Seq<Seq<u8>>,
    order: Seq<int>,
)
    ensures
        placed_in_order(out, parts, bodies, order).len() == out.len(),
    decreases order.len(),
{
    if order.len() > 0 {
        lemma_placed_len(out, parts, bodies, order.drop_last());
    }
}

/// Whether the part at an index does not lie within its body.
pub open spec fn misfit_part(parts: Seq<FileChunkPart>, bodies: Seq<Seq<u8>>) -> spec_fn(
    int,
) -> bool {
    |j: int| parts[j].offset + parts[j].size > bodies[j].len()
}

/// What an assembly yields: the file, where the file is sound and the
/// bodies fit its parts. Where the file is not sound, the error says what is
/// wrong with it; where there is not one body for each part, it speaks of
/// the chunk files; where a body is too short, it names the chunk of the
/// first part that does not lie within its body.
pub open spec fn spec_assemble(
    name: Seq<char>,
    parts: Seq<FileChunkPart>,
    chunks: Map<FGuid, FileChunkView>,
    bodies: Seq<Seq<u8>>,
) -> Result<Seq<u8>, Failure> {
    match file_fault(parts, chunks) {
        Some(fault) => Err(file_failure(name, fault)),
        None => if bodies.len() != parts.len() {
            Err(located(ErrorKind::CorruptManifest, Place::ChunkFile))
        } else {
            match first_from(misfit_part(parts, bodies), 0, parts.len() as int) {
                Some(j) => Err(
                    chunk_failure(ErrorKind::CorruptManifest, chunks[parts[j].guid].file_name),
                ),
                None => Ok(assembled(parts, bodies)),
            }
        },
    }
}

/// An output of `len` zero bytes.
pub fn zeroed(len: usize) -> (output: Vec<u8>)
    ensures
        output@.len() == len,
        forall|k: int| 0 <= k < len ==> output@[k] == 0,
{
    let mut output: Vec<u8> = Vec::new();
    while output.len() < len
        invariant
            output@.len() <= len,
            forall|k: int| 0 <= k < output@.len() ==> output@[k] == 0,
        decreases len - output@.len(),
    {
        output.push(0);
    }
    output
}

impl FileManifest {
    /// Assembles the file from the bodies of its parts' chunks, `bodies[i]`
    /// being the body of the chunk of part `i`.
    pub fn assemble(&self, context: &ManifestContext, bodies: &Vec<Vec<u8>>) -> (r: Result<
        Vec<u8>,
        ParserError,
    >)
        ensures
            match spec_assemble(
                self.name@,
                self.chunk_parts@,
                context.chunks@,
                bodies.deep_view(),
            ) {
                Ok(file) => r is Ok && r->Ok_0@ == file && file.len() == total_size(
                    self.chunk_parts@,
                ),
                Err(f) => r is Err && r->Err_0@ == f,
            },
            r is Ok <==> file_ok(self.chunk_parts@, context.chunks@) && bodies_fit(
                self.chunk_parts@,
                bodies.deep_view(),
            ),
    {
        let ghost parts = self.chunk_parts@;
        let ghost all = bodies.deep_view();
        let ghost misfit = misfit_part(parts, all);
        proof {
            lemma_file_fault(parts, context.chunks@);
        }
        let plan = self.plan(context)?;
        assert(plan@.len() == parts.len()) by {
            assert(plan_view(plan@).len() == plan@.len());
            assert(plan_of(parts, context.chunks@).len() == parts.len());
        }
        assert(all.len() == bodies@.len());
        if bodies.len() != plan.len() {
            return Err(ParserError::located_at(ErrorKind::CorruptManifest, Place::ChunkFile));
        }
        let total: usize = checked_total_size(&self.chunk_parts).unwrap();
        let mut output = zeroed(total);
        let ghost blank = output@;
        let mut i: usize = 0;
        assert(Seq::new(0, |k: int| k) =~= Seq::<int>::empty());
        while i < plan.len()
            invariant
                i <= plan@.len(),
                parts == self.chunk_parts@,
                all == bodies.deep_view(),
                misfit == misfit_part(parts, all),
                file_ok(parts, context.chunks@),
                file_fault(parts, context.chunks@) is None,
                plan_view(plan@) == plan_of(parts, context.chunks@),
                bodies@.len() == plan@.len(),
                plan@.len() == parts.len(),
                blank.len() == total_size(parts),
                output@ == placed_in_order(blank, parts, all, Seq::new(i as nat, |k: int| k)),
                forall|k: int| 0 <= k < i ==> !#[trigger] misfit(k),
            decreases plan@.len() - i,
        {
            let ghost before = Seq::new(i as nat, |k: int| k);
            let ghost after = Seq::new((i + 1) as nat, |k: int| k);
            proof {
                assert(after.drop_last() =~= before);
                assert(plan_view(plan@)[i as int] == plan@[i as int]@);
                lemma_placed_len(blank, parts, all, before);
                lemma_starts_ordered(parts, i as int, parts.len() as int);
                assert(parts.subrange(0, parts.len() as int) =~= parts);
                assert(part_ok(parts[i as int], context.chunks@));
                assert(all[i as int] == bodies@[i as int]@);
            }
            match place(&mut output, &plan[i], bodies[i].as_slice()) {
                Ok(_) => {},
                Err(e) => {
                    proof {
                        assert(misfit(i as int));
                        lemma_first_from(misfit, 0, i as int, parts.len() as int);
                        assert(!bodies_fit(parts, all));
                    }
                    return Err(e);
                },
            }
            i += 1;
        }
        proof {
            let order = Seq::new(parts.len(), |k: int| k);
            lemma_first_from(misfit, 0, parts.len() as int, parts.len() as int);
            assert(bodies_fit(parts, all)) by {
                assert forall|k: int| 0 <= k < parts.len() implies (#[trigger] parts[k]).offset
                    >= 0 && parts[k].size >= 0 && parts[k].offset + parts[k].size
                    <= all[k].len() by {
                    assert(part_ok(parts[k], context.chunks@));
                    assert(!misfit(k));
                }
            }
            assert forall|k: int| 0 <= k < parts.len() implies order.contains(k) by {
                assert(order[k] == k);
            }
            lemma_any_order_assembles(blank, parts, all, order);
            lemma_assembled_len(parts, all);
        }
        Ok(output)
    }
}

} // verus!
