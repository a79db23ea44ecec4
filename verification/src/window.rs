//! The chunk window: the rectangle of 8×4 chunks that is streamed to one
//! client, and what has to be sent when it moves.

use crate::coords::Coords;
use crate::map::chunk_origin;
use crate::map::spec_chunk_origin;
use crate::map::WorldMap;
use crate::message::views;
use crate::message::Message;
use crate::message::MessageView;
use vstd::prelude::*;

verus! {

/// Chunks in one row of the window.
pub const WINDOW_COLUMNS: u64 = 8;

/// Chunks in one column of the window.
pub const WINDOW_ROWS: u64 = 4;

/// Chunks in the window.
pub const WINDOW_CHUNKS: u64 = 32;

/// Width of the window, in blocks.
pub const WINDOW_WIDTH: u64 = 64;

/// Height of the window, in blocks.
pub const WINDOW_HEIGHT: u64 = 32;

/// Blocks between the left edge of the window and the player's chunk.
pub const HALF_WIDTH: u64 = 32;

/// Blocks between the top edge of the window and the player's chunk.
pub const HALF_HEIGHT: u64 = 16;

/// The greatest left edge at which the whole window is in the world.
pub const MAX_LEFT: u64 = 0xFFFF_FFFF_FFFF_FFC0;

/// The greatest top edge at which the whole window is in the world.
pub const MAX_TOP: u64 = 0xFFFF_FFFF_FFFF_FFE0;

/// Holds when `top_left` is the first block of a chunk and the window
/// anchored there lies in the world.
pub open spec fn is_window(top_left: (u64, u64)) -> bool {
    &&& top_left.0 % 8 == 0
    &&& top_left.1 % 8 == 0
    &&& top_left.0 <= MAX_LEFT
    &&& top_left.1 <= MAX_TOP
}

/// The first block of the `k`-th chunk of the window, counting down the
/// columns, from the left column to the right.
pub open spec fn slot(top_left: (u64, u64), k: int) -> (u64, u64) {
    ((top_left.0 + 8 * (k / 4)) as u64, (top_left.1 + 8 * (k % 4)) as u64)
}

/// Holds when a chunk that starts at `origin` is one of the window's.
pub open spec fn in_window(top_left: (u64, u64), origin: (u64, u64)) -> bool {
    &&& origin.0 % 8 == 0
    &&& origin.1 % 8 == 0
    &&& top_left.0 <= origin.0 < top_left.0 + 64
    &&& top_left.1 <= origin.1 < top_left.1 + 32
}

/// The edge of the window on one axis: `reach` blocks before the chunk that
/// holds `position`, kept between 0 and `limit`.
pub open spec fn spec_edge(position: u64, reach: u64, limit: u64) -> u64 {
    let origin = spec_chunk_origin(position);
    if origin < reach {
        0
    } else if origin - reach > limit {
        limit
    } else {
        (origin - reach) as u64
    }
}

/// The top-left corner of the window that a player at `coords` needs.
pub open spec fn spec_needed_top_left(coords: Coords) -> (u64, u64) {
    (
        spec_edge(coords.x.main, HALF_WIDTH, MAX_LEFT),
        spec_edge(coords.y.main, HALF_HEIGHT, MAX_TOP),
    )
}

/// The messages that stream a whole window: one `Chunk` for each of its 32
/// chunks, in the order of `slot`.
pub open spec fn spec_stream(world: &WorldMap, top_left: (u64, u64)) -> Seq<MessageView> {
    Seq::new(
        32,
        |k: int| MessageView::Chunk(world.spec_chunk(slot(top_left, k).0, slot(top_left, k).1)),
    )
}

/// The `Chunk` messages for the first `k` chunks of the window at `needed`,
/// leaving out those that the window at `loaded` holds.
pub open spec fn spec_loads(
    world: &WorldMap,
    loaded: (u64, u64),
    needed: (u64, u64),
    k: nat,
) -> Seq<MessageView>
    decreases k,
{
    if k == 0 {
        Seq::empty()
    } else {
        let rest = spec_loads(world, loaded, needed, (k - 1) as nat);
        let at = slot(needed, k - 1);
        if in_window(loaded, at) {
            rest
        } else {
            rest.push(MessageView::Chunk(world.spec_chunk(at.0, at.1)))
        }
    }
}

/// The `UnloadChunk` messages for the first `k` chunks of the window at
/// `loaded`, leaving out those that the window at `needed` holds.
pub open spec fn spec_unloads(loaded: (u64, u64), needed: (u64, u64), k: nat) -> Seq<MessageView>
    decreases k,
{
    if k == 0 {
        Seq::empty()
    } else {
        let rest = spec_unloads(loaded, needed, (k - 1) as nat);
        let at = slot(loaded, k - 1);
        if in_window(needed, at) {
            rest
        } else {
            rest.push(MessageView::UnloadChunk { x: at.0, y: at.1 })
        }
    }
}

/// What is sent when the window moves from `loaded` to `needed`: the chunks
/// that enter it, then the chunks that leave it.
pub open spec fn spec_diff(world: &WorldMap, loaded: (u64, u64), needed: (u64, u64)) -> Seq<
    MessageView,
> {
    spec_loads(world, loaded, needed, 32) + spec_unloads(loaded, needed, 32)
}

/// Holds when `message` is the `Chunk` message for the chunk that starts at
/// `origin`.
pub open spec fn is_chunk_at(message: MessageView, origin: (u64, u64)) -> bool {
    match message {
        MessageView::Chunk(chunk) => chunk.x == origin.0 && chunk.y == origin.1,
        _ => false,
    }
}

/// Holds when `message` is the `UnloadChunk` message for the chunk that
/// starts at `origin`.
pub open spec fn is_unload_at(message: MessageView, origin: (u64, u64)) -> bool {
    match message {
        MessageView::UnloadChunk { x, y } => x == origin.0 && y == origin.1,
        _ => false,
    }
}

/// How many times `messages` sends the chunk that starts at `origin`.
pub open spec fn chunk_count(messages: Seq<MessageView>, origin: (u64, u64)) -> nat
    decreases messages.len(),
{
    if messages.len() == 0 {
        0
    } else {
        chunk_count(messages.drop_last(), origin) + if is_chunk_at(messages.last(), origin) {
            1nat
        } else {
            0nat
        }
    }
}

/// How many times `messages` unloads the chunk that starts at `origin`.
pub open spec fn unload_count(messages: Seq<MessageView>, origin: (u64, u64)) -> nat
    decreases messages.len(),
{
    if messages.len() == 0 {
        0
    } else {
        unload_count(messages.drop_last(), origin) + if is_unload_at(messages.last(), origin) {
            1nat
        } else {
            0nat
        }
    }
}

/// Counting over two runs of messages adds up.
proof fn lemma_counts_add(a: Seq<MessageView>, b: Seq<MessageView>, origin: (u64, u64))
    ensures
        chunk_count(a + b, origin) == chunk_count(a, origin) + chunk_count(b, origin),
        unload_count(a + b, origin) == unload_count(a, origin) + unload_count(b, origin),
    decreases b.len(),
{
    if b.len() == 0 {
        assert(a + b =~= a);
    } else {
        lemma_counts_add(a, b.drop_last(), origin);
        assert((a + b).drop_last() =~= a + b.drop_last());
        assert((a + b).last() == b.last());
    }
}

/// Counting after one more message.
proof fn lemma_counts_push(a: Seq<MessageView>, m: MessageView, origin: (u64, u64))
    ensures
        chunk_count(a.push(m), origin) == chunk_count(a, origin) + if is_chunk_at(m, origin) {
            1nat
        } else {
            0nat
        },
        unload_count(a.push(m), origin) == unload_count(a, origin) + if is_unload_at(m, origin) {
            1nat
        } else {
            0nat
        },
{
    assert(a.push(m).drop_last() =~= a);
}

/// The place of a chunk among the slots of the window that holds it.
pub open spec fn slot_index(top_left: (u64, u64), origin: (u64, u64)) -> int {
    4 * ((origin.0 - top_left.0) / 8) + (origin.1 - top_left.1) / 8
}

/// The slots of a window are its chunks, each at one place.
proof fn lemma_slots(top_left: (u64, u64), k: int, origin: (u64, u64))
    requires
        is_window(top_left),
        0 <= k < 32,
    ensures
        in_window(top_left, slot(top_left, k)),
        slot(top_left, k) == origin <==> in_window(top_left, origin) && slot_index(
            top_left,
            origin,
        ) == k,
        in_window(top_left, origin) ==> 0 <= slot_index(top_left, origin) < 32,
{
}

/// What the first `k` slots contribute to the chunks sent.
proof fn lemma_loads_counts(
    world: &WorldMap,
    loaded: (u64, u64),
    needed: (u64, u64),
    k: nat,
    origin: (u64, u64),
)
    requires
        is_window(loaded),
        is_window(needed),
        k <= 32,
    ensures
        chunk_count(spec_loads(world, loaded, needed, k), origin) == if in_window(needed, origin)
            && slot_index(needed, origin) < k && !in_window(loaded, origin) {
            1nat
        } else {
            0nat
        },
        unload_count(spec_loads(world, loaded, needed, k), origin) == 0,
        forall|i: int|
            0 <= i < spec_loads(world, loaded, needed, k).len() ==> match #[trigger] spec_loads(
                world,
                loaded,
                needed,
                k,
            )[i] {
                MessageView::Chunk(chunk) => chunk == world.spec_chunk(chunk.x, chunk.y)
                    && in_window(needed, (chunk.x, chunk.y)),
                _ => false,
            },
    decreases k,
{
    if k > 0 {
        lemma_loads_counts(world, loaded, needed, (k - 1) as nat, origin);
        let rest = spec_loads(world, loaded, needed, (k - 1) as nat);
        let at = slot(needed, k - 1);
        lemma_slots(needed, k - 1, origin);
        if !in_window(loaded, at) {
            lemma_counts_push(rest, MessageView::Chunk(world.spec_chunk(at.0, at.1)), origin);
        }
    }
}

/// What the first `k` slots contribute to the chunks unloaded.
proof fn lemma_unloads_counts(loaded: (u64, u64), needed: (u64, u64), k: nat, origin: (u64, u64))
    requires
        is_window(loaded),
        is_window(needed),
        k <= 32,
    ensures
        unload_count(spec_unloads(loaded, needed, k), origin) == if in_window(loaded, origin)
            && slot_index(loaded, origin) < k && !in_window(needed, origin) {
            1nat
        } else {
            0nat
        },
        chunk_count(spec_unloads(loaded, needed, k), origin) == 0,
        forall|i: int|
            0 <= i < spec_unloads(loaded, needed, k).len() ==> match #[trigger] spec_unloads(
                loaded,
                needed,
                k,
            )[i] {
                MessageView::UnloadChunk { x, y } => in_window(loaded, (x, y)),
                _ => false,
            },
    decreases k,
{
    if k > 0 {
        lemma_unloads_counts(loaded, needed, (k - 1) as nat, origin);
        let rest = spec_unloads(loaded, needed, (k - 1) as nat);
        let at = slot(loaded, k - 1);
        lemma_slots(loaded, k - 1, origin);
        if !in_window(needed, at) {
            lemma_counts_push(rest, MessageView::UnloadChunk { x: at.0, y: at.1 }, origin);
        }
    }
}

/// When the window moves, every chunk that the new window holds and the old
/// one did not is sent exactly once, with the blocks that the world has for
/// it; every chunk that the old window held and the new one does not is
/// unloaded exactly once; and nothing else is sent or unloaded. So a chunk
/// that stays in the window is sent zero times, and no chunk is both sent
/// and unloaded.
pub proof fn lemma_diff_complete(
    world: &WorldMap,
    loaded: (u64, u64),
    needed: (u64, u64),
    origin: (u64, u64),
)
    requires
        is_window(loaded),
        is_window(needed),
    ensures
        chunk_count(spec_diff(world, loaded, needed), origin) == if in_window(needed, origin)
            && !in_window(loaded, origin) {
            1nat
        } else {
            0nat
        },
        unload_count(spec_diff(world, loaded, needed), origin) == if in_window(loaded, origin)
            && !in_window(needed, origin) {
            1nat
        } else {
            0nat
        },
        !(chunk_count(spec_diff(world, loaded, needed), origin) > 0 && unload_count(
            spec_diff(world, loaded, needed),
            origin,
        ) > 0),
        forall|i: int|
            0 <= i < spec_diff(world, loaded, needed).len() ==> match #[trigger] spec_diff(
                world,
                loaded,
                needed,
            )[i] {
                MessageView::Chunk(chunk) => chunk == world.spec_chunk(chunk.x, chunk.y),
                MessageView::UnloadChunk { x, y } => true,
                _ => false,
            },
{
    let loads = spec_loads(world, loaded, needed, 32);
    let unloads = spec_unloads(loaded, needed, 32);
    lemma_loads_counts(world, loaded, needed, 32, origin);
    lemma_unloads_counts(loaded, needed, 32, origin);
    lemma_counts_add(loads, unloads, origin);
    lemma_slots(needed, 0, origin);
    lemma_slots(loaded, 0, origin);
    assert forall|i: int| 0 <= i < (loads + unloads).len() implies match #[trigger] (loads
        + unloads)[i] {
        MessageView::Chunk(chunk) => chunk == world.spec_chunk(chunk.x, chunk.y),
        MessageView::UnloadChunk { x, y } => true,
        _ => false,
    } by {
        if i < loads.len() {
            assert((loads + unloads)[i] == loads[i]);
        } else {
            assert((loads + unloads)[i] == unloads[i - loads.len()]);
        }
    }
}

/// Streaming a whole window sends each of its chunks exactly once, 32
/// messages in all.
pub proof fn lemma_stream_complete(world: &WorldMap, top_left: (u64, u64), origin: (u64, u64))
    requires
        is_window(top_left),
    ensures
        spec_stream(world, top_left).len() == 32,
        in_window(top_left, origin) ==> spec_stream(world, top_left)[slot_index(top_left, origin)]
            == MessageView::Chunk(world.spec_chunk(origin.0, origin.1)),
        forall|k: int|
            0 <= k < 32 ==> (is_chunk_at(#[trigger] spec_stream(world, top_left)[k], origin) <==> (
            in_window(top_left, origin) && k == slot_index(top_left, origin))),
{
    assert forall|k: int| 0 <= k < 32 implies (is_chunk_at(
        #[trigger] spec_stream(world, top_left)[k],
        origin,
    ) <==> (in_window(top_left, origin) && k == slot_index(top_left, origin))) by {
        lemma_slots(top_left, k, origin);
    }
    if in_window(top_left, origin) {
        lemma_slots(top_left, slot_index(top_left, origin), origin);
    }
}

/// The edge of the window on one axis.
fn edge(position: u64, reach: u64, limit: u64) -> (r: u64)
    requires
        reach % 8 == 0,
        limit % 8 == 0,
    ensures
        r == spec_edge(position, reach, limit),
        r % 8 == 0,
        r <= limit,
{
    let origin = chunk_origin(position);
    if origin < reach {
        0
    } else if origin - reach > limit {
        limit
    } else {
        origin - reach
    }
}

/// The top-left corner of the window that a player at `coords` needs: half
/// a window before the player's chunk on each axis, kept inside the world.
pub fn needed_top_left(coords: &Coords) -> (r: (u64, u64))
    ensures
        r == spec_needed_top_left(*coords),
        is_window(r),
{
    (edge(coords.x.main, HALF_WIDTH, MAX_LEFT), edge(coords.y.main, HALF_HEIGHT, MAX_TOP))
}

/// Tells whether the chunk that starts at `origin` is one of the window's.
fn holds(top_left: (u64, u64), origin: (u64, u64)) -> (r: bool)
    requires
        origin.0 % 8 == 0,
        origin.1 % 8 == 0,
    ensures
        r == in_window(top_left, origin),
{
    origin.0 >= top_left.0 && origin.0 - top_left.0 < WINDOW_WIDTH && origin.1 >= top_left.1
        && origin.1 - top_left.1 < WINDOW_HEIGHT
}

/// The first block of the `k`-th chunk of the window.
fn slot_at(top_left: (u64, u64), k: u64) -> (r: (u64, u64))
    requires
        is_window(top_left),
        k < 32,
    ensures
        r == slot(top_left, k as int),
        r.0 % 8 == 0,
        r.1 % 8 == 0,
        in_window(top_left, r),
{
    (top_left.0 + 8 * (k / 4), top_left.1 + 8 * (k % 4))
}

/// Appends to `out` a `Chunk` message for each chunk of the window anchored
/// at `top_left`.
pub fn append_window(out: &mut Vec<Message>, world: &WorldMap, top_left: (u64, u64))
    requires
        is_window(top_left),
    ensures
        views(final(out)@) == views(old(out)@) + spec_stream(world, top_left),
{
    let mut k: u64 = 0;
    while k < 32
        invariant
            k <= 32,
            is_window(top_left),
            views(out@) == views(old(out)@) + spec_stream(world, top_left).take(k as int),
        decreases 32 - k,
    {
        let at = slot_at(top_left, k);
        let ghost before = out@;
        let message = Message::Chunk(world.get_chunk(at.0, at.1));
        out.push(message);
        assert(views(out@) =~= views(before).push(message@));
        k += 1;
        assert(views(out@) =~= views(old(out)@) + spec_stream(world, top_left).take(k as int));
    }
    assert(spec_stream(world, top_left).take(32) =~= spec_stream(world, top_left));
}

/// The messages that stream the whole window anchored at `top_left`.
pub fn stream_window(world: &WorldMap, top_left: (u64, u64)) -> (r: Vec<Message>)
    requires
        is_window(top_left),
    ensures
        views(r@) == spec_stream(world, top_left),
        r@.len() == 32,
{
    let mut out: Vec<Message> = Vec::new();
    append_window(&mut out, world, top_left);
    assert(views(out@) =~= spec_stream(world, top_left));
    assert(views(out@).len() == out@.len());
    out
}

/// Appends to `out` a `Chunk` message for each chunk that the window at
/// `needed` holds and the window at `loaded` does not.
fn append_loads(out: &mut Vec<Message>, world: &WorldMap, loaded: (u64, u64), needed: (u64, u64))
    requires
        is_window(loaded),
        is_window(needed),
    ensures
        views(final(out)@) == views(old(out)@) + spec_loads(world, loaded, needed, 32),
{
    let mut k: u64 = 0;
    while k < 32
        invariant
            k <= 32,
            is_window(loaded),
            is_window(needed),
            views(out@) == views(old(out)@) + spec_loads(world, loaded, needed, k as nat),
        decreases 32 - k,
    {
        let at = slot_at(needed, k);
        if !holds(loaded, at) {
            let ghost before = out@;
            let message = Message::Chunk(world.get_chunk(at.0, at.1));
            out.push(message);
            assert(views(out@) =~= views(before).push(message@));
        }
        k += 1;
        assert(views(out@) =~= views(old(out)@) + spec_loads(world, loaded, needed, k as nat));
    }
}

/// Appends to `out` an `UnloadChunk` message for each chunk that the window
/// at `loaded` holds and the window at `needed` does not.
fn append_unloads(out: &mut Vec<Message>, loaded: (u64, u64), needed: (u64, u64))
    requires
        is_window(loaded),
        is_window(needed),
    ensures
        views(final(out)@) == views(old(out)@) + spec_unloads(loaded, needed, 32),
{
    let mut k: u64 = 0;
    while k < 32
        invariant
            k <= 32,
            is_window(loaded),
            is_window(needed),
            views(out@) == views(old(out)@) + spec_unloads(loaded, needed, k as nat),
        decreases 32 - k,
    {
        let at = slot_at(loaded, k);
        if !holds(needed, at) {
            let ghost before = out@;
            let message = Message::UnloadChunk { x: at.0, y: at.1 };
            out.push(message);
            assert(views(out@) =~= views(before).push(message@));
        }
        k += 1;
        assert(views(out@) =~= views(old(out)@) + spec_unloads(loaded, needed, k as nat));
    }
}

/// The messages to send when the window moves from `loaded` to `needed`:
/// a `Chunk` for every chunk that enters the window, then an `UnloadChunk`
/// for every chunk that leaves it.
pub fn window_diff(world: &WorldMap, loaded: (u64, u64), needed: (u64, u64)) -> (r: Vec<Message>)
    requires
        is_window(loaded),
        is_window(needed),
    ensures
        views(r@) == spec_diff(world, loaded, needed),
{
    let mut out: Vec<Message> = Vec::new();
    append_loads(&mut out, world, loaded, needed);
    append_unloads(&mut out, loaded, needed);
    assert(views(out@) =~= spec_diff(world, loaded, needed));
    out
}

} // verus!
