//! The frames of the protocol: how each message is written as text and read
//! back. A frame is the message's tag, then its numbers, then, for some
//! messages, a space and a text that runs to the end of the frame.

use crate::block::Block;
use crate::block::BlockCode;
use crate::block::BlockGrid;
use crate::block::Chunk;
use crate::block::Orientation;
use crate::codec::digit;
use crate::codec::digit_text;
use crate::codec::has_tag;
use crate::codec::push_fields;
use crate::codec::read_fields;
use crate::codec::to_chars;
use crate::codec::digit_value;
use crate::codec::fields;
use crate::codec::has_fields;
use crate::codec::is_digit;
use crate::codec::numbers_at;
use crate::codec::starts_with;
use crate::coords::Coords;
use crate::coords::SingleAxis;
use crate::entity::Entity;
use crate::entity::EntityType;
use crate::entity::EntityView;
use crate::message::Message;
use crate::message::MessageView;
use vstd::array::spec_array_update;
use vstd::prelude::*;

verus! {

/// Why a frame is no message.
#[derive(Clone, Copy, Debug, PartialEq, Eq, Structural)]
pub enum DecodeError {
    /// The frame begins with no tag of the protocol.
    UnknownTag,
    /// The tag is known, and what follows it is not what the tag asks for.
    Malformed,
}

/// The kinds of message, one for each tag.
#[derive(Clone, Copy, Debug, PartialEq, Eq, Structural)]
pub enum Kind {
    ChatMessage,
    Chunk,
    UnloadChunk,
    CreateEntity,
    InitServer,
    InitClient,
    Tick,
    MoveEntity,
    TpEntity,
    Ping,
    Kick,
}

/// The tag that a frame of the given kind begins with.
pub open spec fn tag(kind: Kind) -> Seq<char> {
    match kind {
        Kind::ChatMessage => "ChatMessage"@,
        Kind::Chunk => "Chunk"@,
        Kind::UnloadChunk => "UnloadChunk"@,
        Kind::CreateEntity => "CreateEntity"@,
        Kind::InitServer => "InitServer"@,
        Kind::InitClient => "InitClient"@,
        Kind::Tick => "Tick"@,
        Kind::MoveEntity => "MoveEntity"@,
        Kind::TpEntity => "TpEntity"@,
        Kind::Ping => "Ping"@,
        Kind::Kick => "Kick"@,
    }
}

/// How many numbers follow the tag in a frame of the given kind.
pub open spec fn count(kind: Kind) -> nat {
    match kind {
        Kind::ChatMessage => 2,
        Kind::Chunk => 2,
        Kind::UnloadChunk => 2,
        Kind::CreateEntity => 6,
        Kind::InitServer => 4,
        Kind::InitClient => 1,
        Kind::Tick => 0,
        Kind::MoveEntity => 2,
        Kind::TpEntity => 5,
        Kind::Ping => 0,
        Kind::Kick => 0,
    }
}

/// The kind of a message.
pub open spec fn kind_of(message: MessageView) -> Kind {
    match message {
        MessageView::ChatMessage { .. } => Kind::ChatMessage,
        MessageView::Chunk(_) => Kind::Chunk,
        MessageView::UnloadChunk { .. } => Kind::UnloadChunk,
        MessageView::CreateEntity(_) => Kind::CreateEntity,
        MessageView::InitServer { .. } => Kind::InitServer,
        MessageView::InitClient { .. } => Kind::InitClient,
        MessageView::Tick => Kind::Tick,
        MessageView::MoveEntity { .. } => Kind::MoveEntity,
        MessageView::TpEntity { .. } => Kind::TpEntity,
        MessageView::Ping => Kind::Ping,
        MessageView::Kick(_) => Kind::Kick,
    }
}

/// The number that stands for a direction on the wire.
pub open spec fn orientation_code(orientation: Orientation) -> u64 {
    match orientation {
        Orientation::Up => 1,
        Orientation::Right => 2,
        Orientation::Down => 3,
        Orientation::Left => 4,
    }
}

/// The number that stands for a kind of entity on the wire.
pub open spec fn type_code(entity_type: EntityType) -> u64 {
    match entity_type {
        EntityType::Player => 0,
        EntityType::Mob => 1,
    }
}

/// The kind of entity that the number `code` stands for.
pub open spec fn type_of(code: u64) -> EntityType {
    if code == 0 {
        EntityType::Player
    } else {
        EntityType::Mob
    }
}

/// The number, from 0 to 7, that stands for a block on the wire.
pub open spec fn block_index(block: Block) -> int {
    (match block.block_code {
        BlockCode::SimpleSlab => 0int,
        BlockCode::SimpleWall => 4int,
    }) + orientation_code(block.orientation) - 1
}

/// The block that the number `index` stands for.
pub open spec fn block_of(index: int) -> Block {
    Block {
        block_code: if index < 4 {
            BlockCode::SimpleSlab
        } else {
            BlockCode::SimpleWall
        },
        orientation: Orientation::spec_from((index % 4 + 1) as u8),
    }
}

/// The 64 characters that write a grid of blocks: one digit for each
/// block, column after column.
pub open spec fn grid_text(grid: BlockGrid) -> Seq<char> {
    Seq::new(64, |k: int| digit(block_index(grid[k / 8][k % 8])))
}

/// Holds when `text` writes a grid of blocks.
pub open spec fn is_grid_text(text: Seq<char>) -> bool {
    &&& text.len() == 64
    &&& forall|k: int| 0 <= k < 64 ==> is_digit(#[trigger] text[k]) && digit_value(text[k]) <= 7
}

/// `grid` with the block at `(i, j)` replaced by `block`.
pub open spec fn grid_with(grid: BlockGrid, i: int, j: int, block: Block) -> BlockGrid {
    spec_array_update(grid, i, spec_array_update(grid[i], j, block))
}

/// The grid whose first `k` blocks are those that `text` writes, over
/// `grid`.
pub open spec fn grid_from(text: Seq<char>, k: nat, grid: BlockGrid) -> BlockGrid
    decreases k,
{
    if k == 0 {
        grid
    } else {
        grid_with(
            grid_from(text, (k - 1) as nat, grid),
            (k - 1) / 8,
            (k - 1) % 8,
            block_of(digit_value(text[k - 1])),
        )
    }
}

/// The grid of blocks that `text` writes.
pub open spec fn grid_of(text: Seq<char>) -> BlockGrid {
    grid_from(text, 64, crate::block::filled_grid(Block::spec_default()))
}

/// The four numbers of a position.
pub open spec fn coords_numbers(coords: Coords) -> Seq<u64> {
    seq![coords.x.main, coords.x.additionnal as u64, coords.y.main, coords.y.additionnal as u64]
}

/// The numbers that follow the tag in the frame of a message.
pub open spec fn numbers_of(message: MessageView) -> Seq<u64> {
    match message {
        MessageView::ChatMessage { sender_id, receiver_id, message } => seq![
            sender_id,
            receiver_id,
        ],
        MessageView::Chunk(chunk) => seq![chunk.x, chunk.y],
        MessageView::UnloadChunk { x, y } => seq![x, y],
        MessageView::CreateEntity(entity) => coords_numbers(entity.coords) + seq![
            entity.id,
            type_code(entity.entity_type),
        ],
        MessageView::InitServer { username, screen_width, screen_height, password } => seq![
            screen_width as u64,
            screen_height as u64,
            if password is Some {
                1u64
            } else {
                0u64
            },
            username.len() as u64,
        ],
        MessageView::InitClient { id } => seq![id],
        MessageView::Tick => Seq::empty(),
        MessageView::MoveEntity { id, direction } => seq![id, orientation_code(direction)],
        MessageView::TpEntity { id, coords } => seq![id] + coords_numbers(coords),
        MessageView::Ping => Seq::empty(),
        MessageView::Kick(_) => Seq::empty(),
    }
}

/// A text at the end of a frame: a space, then the text.
pub open spec fn text_tail(text: Seq<char>) -> Seq<char> {
    seq![' '] + text
}

/// What follows the numbers in the frame of a message.
pub open spec fn tail_of(message: MessageView) -> Seq<char> {
    match message {
        MessageView::ChatMessage { sender_id, receiver_id, message } => text_tail(message),
        MessageView::Chunk(chunk) => text_tail(grid_text(chunk.blocks)),
        MessageView::CreateEntity(entity) => text_tail(entity.name),
        MessageView::InitServer { username, screen_width, screen_height, password } => text_tail(
            username + match password {
                Some(p) => p,
                None => Seq::empty(),
            },
        ),
        MessageView::Kick(reason) => text_tail(reason),
        _ => Seq::empty(),
    }
}

/// The frame of a message.
pub open spec fn encode_spec(message: MessageView) -> Seq<char> {
    tag(kind_of(message)) + fields(numbers_of(message)) + tail_of(message)
}

/// Holds when the message can be written as a frame: the length of a
/// user name fits a number of the wire. Every message in memory does.
pub open spec fn is_wire(message: MessageView) -> bool {
    match message {
        MessageView::InitServer { username, .. } => username.len() <= u64::MAX,
        _ => true,
    }
}

/// The kind of the frame `s`: the one whose tag it begins with.
pub open spec fn spec_kind(s: Seq<char>) -> Option<Kind> {
    if starts_with(s, tag(Kind::ChatMessage)) {
        Some(Kind::ChatMessage)
    } else if starts_with(s, tag(Kind::Chunk)) {
        Some(Kind::Chunk)
    } else if starts_with(s, tag(Kind::UnloadChunk)) {
        Some(Kind::UnloadChunk)
    } else if starts_with(s, tag(Kind::CreateEntity)) {
        Some(Kind::CreateEntity)
    } else if starts_with(s, tag(Kind::InitServer)) {
        Some(Kind::InitServer)
    } else if starts_with(s, tag(Kind::InitClient)) {
        Some(Kind::InitClient)
    } else if starts_with(s, tag(Kind::Tick)) {
        Some(Kind::Tick)
    } else if starts_with(s, tag(Kind::MoveEntity)) {
        Some(Kind::MoveEntity)
    } else if starts_with(s, tag(Kind::TpEntity)) {
        Some(Kind::TpEntity)
    } else if starts_with(s, tag(Kind::Ping)) {
        Some(Kind::Ping)
    } else if starts_with(s, tag(Kind::Kick)) {
        Some(Kind::Kick)
    } else {
        None
    }
}

/// The text that `tail` carries behind its space, if it is a text tail.
pub open spec fn text_of(tail: Seq<char>) -> Option<Seq<char>> {
    if tail.len() >= 1 && tail[0] == ' ' {
        Some(tail.subrange(1, tail.len() as int))
    } else {
        None
    }
}

/// The position that four numbers write, if the offsets fit a byte.
pub open spec fn coords_of(ns: Seq<u64>, at: int) -> Option<Coords> {
    let len = ns.len();
    if ns[at + 1] <= 255 && ns[at + 3] <= 255 {
        Some(
            Coords {
                x: SingleAxis { main: ns[at], additionnal: ns[at + 1] as u8 },
                y: SingleAxis { main: ns[at + 2], additionnal: ns[at + 3] as u8 },
            },
        )
    } else {
        None
    }
}

/// The message of the given kind that the numbers `ns` and the rest of the
/// frame `tail` write, if they write one.
pub open spec fn assemble(kind: Kind, ns: Seq<u64>, tail: Seq<char>) -> Option<MessageView> {
    match kind {
        Kind::ChatMessage => match text_of(tail) {
            Some(text) => Some(
                MessageView::ChatMessage { sender_id: ns[0], receiver_id: ns[1], message: text },
            ),
            None => None,
        },
        Kind::Chunk => match text_of(tail) {
            Some(text) => if is_grid_text(text) {
                Some(MessageView::Chunk(Chunk { x: ns[0], y: ns[1], blocks: grid_of(text) }))
            } else {
                None
            },
            None => None,
        },
        Kind::UnloadChunk => if tail.len() == 0 {
            Some(MessageView::UnloadChunk { x: ns[0], y: ns[1] })
        } else {
            None
        },
        Kind::CreateEntity => match (text_of(tail), coords_of(ns, 0)) {
            (Some(text), Some(coords)) => if ns[5] <= 1 {
                Some(
                    MessageView::CreateEntity(
                        EntityView { coords, id: ns[4], name: text, entity_type: type_of(ns[5]) },
                    ),
                )
            } else {
                None
            },
            _ => None,
        },
        Kind::InitServer => match text_of(tail) {
            Some(text) => if ns[0] <= u32::MAX && ns[1] <= u32::MAX && ns[2] <= 1 && ns[3]
                <= text.len() && (ns[2] == 0 ==> ns[3] == text.len()) {
                Some(
                    MessageView::InitServer {
                        username: text.subrange(0, ns[3] as int),
                        screen_width: ns[0] as u32,
                        screen_height: ns[1] as u32,
                        password: if ns[2] == 1 {
                            Some(text.subrange(ns[3] as int, text.len() as int))
                        } else {
                            None
                        },
                    },
                )
            } else {
                None
            },
            None => None,
        },
        Kind::InitClient => if tail.len() == 0 {
            Some(MessageView::InitClient { id: ns[0] })
        } else {
            None
        },
        Kind::Tick => if tail.len() == 0 {
            Some(MessageView::Tick)
        } else {
            None
        },
        Kind::MoveEntity => if tail.len() == 0 && 1 <= ns[1] <= 4 {
            Some(
                MessageView::MoveEntity { id: ns[0], direction: Orientation::spec_from(ns[1] as u8) },
            )
        } else {
            None
        },
        Kind::TpEntity => match coords_of(ns, 1) {
            Some(coords) => if tail.len() == 0 {
                Some(MessageView::TpEntity { id: ns[0], coords })
            } else {
                None
            },
            None => None,
        },
        Kind::Ping => if tail.len() == 0 {
            Some(MessageView::Ping)
        } else {
            None
        },
        Kind::Kick => match text_of(tail) {
            Some(text) => Some(MessageView::Kick(text)),
            None => None,
        },
    }
}

/// The message that the frame `s` writes, or why it writes none.
pub open spec fn decode_spec(s: Seq<char>) -> Result<MessageView, DecodeError> {
    match spec_kind(s) {
        None => Err(DecodeError::UnknownTag),
        Some(kind) => {
            let at = tag(kind).len() as int;
            if has_fields(s, at, count(kind)) {
                match assemble(
                    kind,
                    numbers_at(s, at, count(kind)),
                    s.subrange(at + 21 * count(kind), s.len() as int),
                ) {
                    Some(message) => Ok(message),
                    None => Err(DecodeError::Malformed),
                }
            } else {
                Err(DecodeError::Malformed)
            }
        },
    }
}

/// The place at which the tags of two different kinds differ.
pub open spec fn differing(a: Kind, b: Kind) -> int {
    match (a, b) {
        (Kind::ChatMessage, Kind::Chunk) => 2,
        (Kind::Chunk, Kind::ChatMessage) => 2,
        (Kind::ChatMessage, Kind::CreateEntity) => 1,
        (Kind::CreateEntity, Kind::ChatMessage) => 1,
        (Kind::Chunk, Kind::CreateEntity) => 1,
        (Kind::CreateEntity, Kind::Chunk) => 1,
        (Kind::InitServer, Kind::InitClient) => 4,
        (Kind::InitClient, Kind::InitServer) => 4,
        (Kind::Tick, Kind::TpEntity) => 1,
        (Kind::TpEntity, Kind::Tick) => 1,
        _ => 0,
    }
}

/// What the tags are made of: no tag is longer than twelve characters, and
/// any two of them differ at a place that both have.
#[verifier::rlimit(40)]
pub proof fn lemma_tags(a: Kind, b: Kind)
    ensures
        4 <= tag(a).len() <= 12,
        a != b ==> 0 <= differing(a, b) < tag(a).len() && differing(a, b) < tag(b).len() && tag(
            a,
        )[differing(a, b)] != tag(b)[differing(a, b)],
{
    reveal_strlit("ChatMessage");
    reveal_strlit("Chunk");
    reveal_strlit("UnloadChunk");
    reveal_strlit("CreateEntity");
    reveal_strlit("InitServer");
    reveal_strlit("InitClient");
    reveal_strlit("Tick");
    reveal_strlit("MoveEntity");
    reveal_strlit("TpEntity");
    reveal_strlit("Ping");
    reveal_strlit("Kick");
}

/// A frame begins with the tag of one kind only.
pub proof fn lemma_one_tag(s: Seq<char>, a: Kind, b: Kind)
    requires
        starts_with(s, tag(a)),
        starts_with(s, tag(b)),
    ensures
        a == b,
{
    if a != b {
        lemma_tags(a, b);
        let i = differing(a, b);
        assert(s.subrange(0, tag(a).len() as int)[i] == s[i]);
        assert(s.subrange(0, tag(b).len() as int)[i] == s[i]);
    }
}

/// The kind of a frame that begins with a tag is the kind of that tag.
pub proof fn lemma_kind_of_frame(kind: Kind, rest: Seq<char>)
    ensures
        starts_with(tag(kind) + rest, tag(kind)),
        spec_kind(tag(kind) + rest) == Some(kind),
{
    let s = tag(kind) + rest;
    assert(s.subrange(0, tag(kind).len() as int) =~= tag(kind));
    assert forall|other: Kind| starts_with(s, tag(other)) implies other == kind by {
        lemma_one_tag(s, other, kind);
    }
}

/// The kind found for a frame is one whose tag the frame begins with.
pub proof fn lemma_kind_found(s: Seq<char>)
    ensures
        match spec_kind(s) {
            Some(kind) => starts_with(s, tag(kind)),
            None => forall|kind: Kind| !starts_with(s, tag(kind)),
        },
{
}

/// A text reads back from behind its space.
pub proof fn lemma_text_tail(text: Seq<char>)
    ensures
        text_of(text_tail(text)) == Some(text),
{
    assert(text_tail(text).subrange(1, text_tail(text).len() as int) =~= text);
}

/// A tail that carries a text is the space and that text.
pub proof fn lemma_text_of(tail: Seq<char>)
    requires
        text_of(tail).is_some(),
    ensures
        text_tail(text_of(tail).unwrap()) == tail,
{
    assert(text_tail(text_of(tail).unwrap()) =~= tail);
}

/// The numbers of blocks and blocks stand for each other.
pub proof fn lemma_block_index(block: Block, index: int)
    ensures
        0 <= block_index(block) <= 7,
        block_of(block_index(block)) == block,
        0 <= index <= 7 ==> block_index(block_of(index)) == index,
{
}

/// Replacing one block of a grid changes that block and no other.
pub proof fn lemma_grid_with(grid: BlockGrid, i: int, j: int, block: Block)
    requires
        0 <= i < 8,
        0 <= j < 8,
    ensures
        forall|a: int, b: int|
            0 <= a < 8 && 0 <= b < 8 ==> #[trigger] grid_with(grid, i, j, block)[a][b] == if a == i
                && b == j {
                block
            } else {
                grid[a][b]
            },
{
    broadcast use vstd::array::group_array_axioms;

    let row = spec_array_update(grid[i], j, block);
    let after = grid_with(grid, i, j, block);
    assert(row@ == grid[i]@.update(j, block));
    assert(after@ == grid@.update(i, row));
    assert forall|a: int, b: int| 0 <= a < 8 && 0 <= b < 8 implies #[trigger] after[a][b] == if a
        == i && b == j {
        block
    } else {
        grid[a][b]
    } by {
        if a == i {
            assert(after[a] == row);
            assert(row[b] == row@[b]);
        } else {
            assert(after[a] == grid[a]);
        }
    }
}

/// The blocks of the grid that is built from a text.
pub proof fn lemma_grid_from(text: Seq<char>, k: nat, grid: BlockGrid)
    requires
        k <= 64,
    ensures
        forall|c: int|
            0 <= c < 64 ==> #[trigger] grid_from(text, k, grid)[c / 8][c % 8] == if c < k {
                block_of(digit_value(text[c]))
            } else {
                grid[c / 8][c % 8]
            },
    decreases k,
{
    if k > 0 {
        let before = grid_from(text, (k - 1) as nat, grid);
        lemma_grid_from(text, (k - 1) as nat, grid);
        lemma_grid_with(before, (k - 1) / 8, (k - 1) % 8, block_of(digit_value(text[k - 1])));
        assert forall|c: int| 0 <= c < 64 implies #[trigger] grid_from(text, k, grid)[c / 8][c % 8]
            == if c < k {
            block_of(digit_value(text[c]))
        } else {
            grid[c / 8][c % 8]
        } by {
            assert(before[c / 8][c % 8] == if c < k - 1 {
                block_of(digit_value(text[c]))
            } else {
                grid[c / 8][c % 8]
            });
            if c == k - 1 {
            } else {
                assert(!(c / 8 == (k - 1) / 8 && c % 8 == (k - 1) % 8));
            }
        }
    }
}

/// A text that writes a grid is the text of the grid it writes.
pub proof fn lemma_grid_text_of(text: Seq<char>)
    requires
        is_grid_text(text),
    ensures
        grid_text(grid_of(text)) == text,
{
    let start = crate::block::filled_grid(Block::spec_default());
    lemma_grid_from(text, 64, start);
    assert forall|k: int| 0 <= k < 64 implies grid_text(grid_of(text))[k] == text[k] by {
        assert(grid_of(text)[k / 8][k % 8] == block_of(digit_value(text[k])));
        lemma_block_index(Block::spec_default(), digit_value(text[k]));
        crate::codec::lemma_digit_value(text[k]);
    }
    assert(grid_text(grid_of(text)) =~= text);
}

/// The text of a grid writes a grid, and that grid.
pub proof fn lemma_grid_of_text(grid: BlockGrid)
    ensures
        is_grid_text(grid_text(grid)),
        grid_of(grid_text(grid)) == grid,
{
    broadcast use vstd::array::group_array_axioms;

    let text = grid_text(grid);
    let start = crate::block::filled_grid(Block::spec_default());
    let back = grid_of(text);
    assert forall|k: int| 0 <= k < 64 implies is_digit(#[trigger] text[k]) && digit_value(text[k])
        == block_index(grid[k / 8][k % 8]) by {
        lemma_block_index(grid[k / 8][k % 8], 0);
        crate::codec::lemma_digit(block_index(grid[k / 8][k % 8]));
    }
    lemma_grid_from(text, 64, start);
    assert forall|i: int| 0 <= i < 8 implies back[i] == grid[i] by {
        assert forall|j: int| 0 <= j < 8 implies back[i][j] == grid[i][j] by {
            let c = 8 * i + j;
            assert(c / 8 == i && c % 8 == j);
            assert(back[c / 8][c % 8] == block_of(digit_value(text[c])));
            lemma_block_index(grid[i][j], 0);
        }
        assert(back[i] =~= grid[i]);
    }
    assert(back =~= grid);
}

/// The numbers of a message are as many as its kind asks for.
pub proof fn lemma_numbers_count(message: MessageView)
    ensures
        numbers_of(message).len() == count(kind_of(message)),
{
}

/// The numbers and the tail of a message write that message.
#[verifier::rlimit(40)]
pub proof fn lemma_assemble_parts(message: MessageView)
    requires
        is_wire(message),
    ensures
        assemble(kind_of(message), numbers_of(message), tail_of(message)) == Some(message),
{
    let ns = numbers_of(message);
    let tail = tail_of(message);
    match message {
        MessageView::ChatMessage { sender_id, receiver_id, message } => {
            lemma_text_tail(message);
        },
        MessageView::Chunk(chunk) => {
            lemma_text_tail(grid_text(chunk.blocks));
            lemma_grid_of_text(chunk.blocks);
        },
        MessageView::CreateEntity(entity) => {
            lemma_text_tail(entity.name);
            assert(entity.coords.x.additionnal as u64 as u8 == entity.coords.x.additionnal);
            assert(coords_of(ns, 0) == Some(entity.coords));
        },
        MessageView::InitServer { username, screen_width, screen_height, password } => {
            let text = username + match password {
                Some(p) => p,
                None => Seq::empty(),
            };
            lemma_text_tail(text);
            assert(text.subrange(0, username.len() as int) =~= username);
            match password {
                Some(p) => {
                    assert(text.subrange(username.len() as int, text.len() as int) =~= p);
                },
                None => {},
            }
        },
        MessageView::Kick(reason) => {
            lemma_text_tail(reason);
        },
        MessageView::TpEntity { id, coords } => {
            assert(coords_of(ns, 1) == Some(coords));
        },
        _ => {},
    }
}

/// A message comes only from its own kind, numbers and tail.
#[verifier::rlimit(40)]
pub proof fn lemma_parts_of_assembled(kind: Kind, ns: Seq<u64>, tail: Seq<char>)
    requires
        ns.len() == count(kind),
        assemble(kind, ns, tail).is_some(),
    ensures
        is_wire(assemble(kind, ns, tail).unwrap()),
        kind_of(assemble(kind, ns, tail).unwrap()) == kind,
        numbers_of(assemble(kind, ns, tail).unwrap()) == ns,
        tail_of(assemble(kind, ns, tail).unwrap()) == tail,
{
    let message = assemble(kind, ns, tail).unwrap();
    match kind {
        Kind::ChatMessage => {
            lemma_text_of(tail);
        },
        Kind::Chunk => {
            lemma_text_of(tail);
            lemma_grid_text_of(text_of(tail).unwrap());
        },
        Kind::CreateEntity => {
            lemma_text_of(tail);
        },
        Kind::InitServer => {
            lemma_text_of(tail);
            let text = text_of(tail).unwrap();
            let username = text.subrange(0, ns[3] as int);
            let rest = text.subrange(ns[3] as int, text.len() as int);
            assert(username + rest =~= text);
            assert(username + Seq::<char>::empty() =~= username);
        },
        Kind::Kick => {
            lemma_text_of(tail);
        },
        _ => {},
    }
    assert(numbers_of(message) =~= ns);
    assert(tail_of(message) =~= tail);
}

/// Whatever message is written as a frame, the frame reads back as that
/// message.
#[verifier::rlimit(40)]
pub proof fn lemma_round_trip(message: MessageView)
    requires
        is_wire(message),
    ensures
        decode_spec(encode_spec(message)) == Ok::<MessageView, DecodeError>(message),
{
    let kind = kind_of(message);
    let ns = numbers_of(message);
    let tail = tail_of(message);
    let s = encode_spec(message);
    lemma_kind_of_frame(kind, fields(ns) + tail);
    assert(tag(kind) + (fields(ns) + tail) =~= s);
    crate::codec::lemma_fields_read_back(tag(kind), ns, tail);
    lemma_numbers_count(message);
    lemma_assemble_parts(message);
}

/// A frame that reads as a message is the very frame that writes it: no
/// message has two frames.
pub proof fn lemma_canonical(s: Seq<char>)
    requires
        decode_spec(s).is_ok(),
    ensures
        is_wire(decode_spec(s).unwrap()),
        encode_spec(decode_spec(s).unwrap()) == s,
{
    let kind = spec_kind(s).unwrap();
    let at = tag(kind).len() as int;
    let ns = numbers_at(s, at, count(kind));
    let tail = s.subrange(at + 21 * count(kind), s.len() as int);
    lemma_kind_found(s);
    crate::codec::lemma_fields_canonical(s, at, count(kind));
    lemma_parts_of_assembled(kind, ns, tail);
    assert(tag(kind) + fields(ns) + tail =~= s) by {
        assert(s.subrange(0, at) == tag(kind));
        assert(s.subrange(at, at + 21 * count(kind)) == fields(ns));
    }
}

/// Two messages with the same frame are the same message.
pub proof fn lemma_encode_injective(a: MessageView, b: MessageView)
    requires
        is_wire(a),
        is_wire(b),
        encode_spec(a) == encode_spec(b),
    ensures
        a == b,
{
    lemma_round_trip(a);
    lemma_round_trip(b);
}

/// The tag of the given kind, as text.
fn tag_text(kind: Kind) -> (r: &'static str)
    ensures
        r@ == tag(kind),
        4 <= r@.len() <= 12,
{
    proof {
        lemma_tags(kind, kind);
    }
    match kind {
        Kind::ChatMessage => "ChatMessage",
        Kind::Chunk => "Chunk",
        Kind::UnloadChunk => "UnloadChunk",
        Kind::CreateEntity => "CreateEntity",
        Kind::InitServer => "InitServer",
        Kind::InitClient => "InitClient",
        Kind::Tick => "Tick",
        Kind::MoveEntity => "MoveEntity",
        Kind::TpEntity => "TpEntity",
        Kind::Ping => "Ping",
        Kind::Kick => "Kick",
    }
}

/// How many numbers follow the tag in a frame of the given kind.
fn field_count(kind: Kind) -> (r: usize)
    ensures
        r == count(kind),
{
    match kind {
        Kind::ChatMessage => 2,
        Kind::Chunk => 2,
        Kind::UnloadChunk => 2,
        Kind::CreateEntity => 6,
        Kind::InitServer => 4,
        Kind::InitClient => 1,
        Kind::Tick => 0,
        Kind::MoveEntity => 2,
        Kind::TpEntity => 5,
        Kind::Ping => 0,
        Kind::Kick => 0,
    }
}

/// Finds the kind whose tag `chars` begins with.
fn find_kind(chars: &Vec<char>) -> (r: Option<Kind>)
    ensures
        r == spec_kind(chars@),
{
    if has_tag(chars, tag_text(Kind::ChatMessage)) {
        Some(Kind::ChatMessage)
    } else if has_tag(chars, tag_text(Kind::Chunk)) {
        Some(Kind::Chunk)
    } else if has_tag(chars, tag_text(Kind::UnloadChunk)) {
        Some(Kind::UnloadChunk)
    } else if has_tag(chars, tag_text(Kind::CreateEntity)) {
        Some(Kind::CreateEntity)
    } else if has_tag(chars, tag_text(Kind::InitServer)) {
        Some(Kind::InitServer)
    } else if has_tag(chars, tag_text(Kind::InitClient)) {
        Some(Kind::InitClient)
    } else if has_tag(chars, tag_text(Kind::Tick)) {
        Some(Kind::Tick)
    } else if has_tag(chars, tag_text(Kind::MoveEntity)) {
        Some(Kind::MoveEntity)
    } else if has_tag(chars, tag_text(Kind::TpEntity)) {
        Some(Kind::TpEntity)
    } else if has_tag(chars, tag_text(Kind::Ping)) {
        Some(Kind::Ping)
    } else if has_tag(chars, tag_text(Kind::Kick)) {
        Some(Kind::Kick)
    } else {
        None
    }
}

/// The number that stands for a direction on the wire.
fn orientation_number(orientation: Orientation) -> (r: u64)
    ensures
        r == orientation_code(orientation),
{
    match orientation {
        Orientation::Up => 1,
        Orientation::Right => 2,
        Orientation::Down => 3,
        Orientation::Left => 4,
    }
}

/// The number that stands for a kind of entity on the wire.
fn type_number(entity_type: EntityType) -> (r: u64)
    ensures
        r == type_code(entity_type),
{
    match entity_type {
        EntityType::Player => 0,
        EntityType::Mob => 1,
    }
}

/// The number, from 0 to 7, that stands for a block on the wire.
fn block_number(block: Block) -> (r: u8)
    ensures
        r == block_index(block),
        r <= 7,
{
    let base: u8 = match block.block_code {
        BlockCode::SimpleSlab => 0,
        BlockCode::SimpleWall => 4,
    };
    let turn: u8 = match block.orientation {
        Orientation::Up => 0,
        Orientation::Right => 1,
        Orientation::Down => 2,
        Orientation::Left => 3,
    };
    base + turn
}

/// The block that the number `index` stands for.
fn block_from(index: u8) -> (r: Block)
    requires
        index <= 7,
    ensures
        r == block_of(index as int),
{
    let block_code = if index < 4 {
        BlockCode::SimpleSlab
    } else {
        BlockCode::SimpleWall
    };
    Block::new(block_code, Orientation::from(index % 4 + 1))
}

/// Appends to `out` a space and `text`.
fn push_text(out: &mut String, text: &str)
    ensures
        final(out)@ == old(out)@ + text_tail(text@),
{
    proof {
        reveal_strlit(" ");
    }
    out.append(" ");
    out.append(text);
    assert(out@ =~= old(out)@ + text_tail(text@));
}

/// Appends to `out` a space and the 64 characters that write `grid`.
fn push_grid(out: &mut String, grid: &BlockGrid)
    ensures
        final(out)@ == old(out)@ + text_tail(grid_text(*grid)),
{
    proof {
        reveal_strlit(" ");
    }
    out.append(" ");
    let mut k: usize = 0;
    while k < 64
        invariant
            k <= 64,
            out@ == old(out)@ + seq![' '] + grid_text(*grid).take(k as int),
        decreases 64 - k,
    {
        let block = grid[k / 8][k % 8];
        out.append(digit_text(block_number(block)));
        k += 1;
        assert(out@ =~= old(out)@ + seq![' '] + grid_text(*grid).take(k as int));
    }
    assert(out@ =~= old(out)@ + text_tail(grid_text(*grid)));
}

/// Reads the grid that the 64 characters of `chars` from the place `at` on
/// write, if they write one.
fn read_grid(chars: &Vec<char>, at: usize) -> (r: Option<BlockGrid>)
    requires
        at + 64 == chars@.len(),
    ensures
        match r {
            Some(grid) => is_grid_text(chars@.subrange(at as int, at + 64)) && grid == grid_of(
                chars@.subrange(at as int, at + 64),
            ),
            None => !is_grid_text(chars@.subrange(at as int, at + 64)),
        },
{
    broadcast use vstd::array::group_array_axioms;

    let ghost text = chars@.subrange(at as int, at + 64);
    let len = chars.len();
    let mut grid: BlockGrid = Chunk::filled(0, 0, Block::default()).blocks;
    let mut k: usize = 0;
    while k < 64
        invariant
            k <= 64,
            at + 64 == chars@.len(),
            chars@.len() <= usize::MAX,
            text == chars@.subrange(at as int, at + 64),
            forall|c: int| 0 <= c < k ==> is_digit(#[trigger] text[c]) && digit_value(text[c]) <= 7,
            grid == grid_from(text, k as nat, crate::block::filled_grid(Block::spec_default())),
        decreases 64 - k,
    {
        let c = chars[at + k];
        assert(text[k as int] == c);
        if !(c >= '0' && c <= '7') {
            return None;
        }
        let index = (c as u32 - '0' as u32) as u8;
        let ghost before = grid;
        let mut column = grid[k / 8];
        column[k % 8] = block_from(index);
        grid[k / 8] = column;
        proof {
            let i = (k / 8) as int;
            let j = (k % 8) as int;
            let block = block_of(digit_value(text[k as int]));
            assert(column@ == before[i]@.update(j, block));
            assert(grid@ == before@.update(i, column));
            assert(column =~= spec_array_update(before[i], j, block));
            assert(grid =~= grid_with(before, i, j, block));
        }
        k += 1;
    }
    Some(grid)
}

/// The characters of `data` from `from` to `to`, as a text of its own.
fn copy_text(data: &str, from: usize, to: usize) -> (r: String)
    requires
        from <= to <= data@.len(),
    ensures
        r@ == data@.subrange(from as int, to as int),
{
    String::from_str(data.substring_char(from, to))
}

/// The position that four numbers of `ns` write, from the place `at` on.
fn read_coords(ns: &Vec<u64>, at: usize) -> (r: Option<Coords>)
    requires
        at + 4 <= ns@.len(),
    ensures
        r == coords_of(ns@, at as int),
{
    let len = ns.len();
    if ns[at + 1] <= 255 && ns[at + 3] <= 255 {
        Some(
            Coords {
                x: SingleAxis { main: ns[at], additionnal: ns[at + 1] as u8 },
                y: SingleAxis { main: ns[at + 2], additionnal: ns[at + 3] as u8 },
            },
        )
    } else {
        None
    }
}

/// Builds the message of the given kind from its numbers and from what
/// follows them in the frame, which starts at the place `at`.
#[verifier::rlimit(40)]
fn build(kind: Kind, ns: &Vec<u64>, data: &str, chars: &Vec<char>, at: usize) -> (r: Option<
    Message,
>)
    requires
        ns@.len() == count(kind),
        chars@ == data@,
        at <= chars@.len(),
    ensures
        match r {
            Some(message) => assemble(kind, ns@, chars@.subrange(at as int, chars@.len() as int))
                == Some(message@),
            None => assemble(kind, ns@, chars@.subrange(at as int, chars@.len() as int)).is_none(),
        },
{
    let len = chars.len();
    let ghost tail = chars@.subrange(at as int, len as int);
    let has_text = at < len && chars[at] == ' ';
    assert(has_text == text_of(tail).is_some());
    proof {
        if has_text {
            assert(text_of(tail).unwrap() =~= data@.subrange(at + 1, len as int));
        }
    }
    match kind {
        Kind::ChatMessage => {
            if !has_text {
                return None;
            }
            Some(
                Message::ChatMessage {
                    sender_id: ns[0],
                    receiver_id: ns[1],
                    message: copy_text(data, at + 1, len),
                },
            )
        },
        Kind::Chunk => {
            if !has_text || len - at != 65 {
                return None;
            }
            assert(chars@.subrange(at + 1, at + 1 + 64) =~= text_of(tail).unwrap());
            match read_grid(chars, at + 1) {
                Some(blocks) => Some(Message::Chunk(Chunk::new(ns[0], ns[1], blocks))),
                None => None,
            }
        },
        Kind::UnloadChunk => {
            if at != len {
                return None;
            }
            Some(Message::UnloadChunk { x: ns[0], y: ns[1] })
        },
        Kind::CreateEntity => {
            if !has_text || ns[5] > 1 {
                return None;
            }
            let entity_type = if ns[5] == 0 {
                EntityType::Player
            } else {
                EntityType::Mob
            };
            match read_coords(ns, 0) {
                Some(coords) => Some(
                    Message::CreateEntity(
                        Entity::new(coords, ns[4], copy_text(data, at + 1, len), entity_type),
                    ),
                ),
                None => None,
            }
        },
        Kind::InitServer => {
            if !has_text {
                return None;
            }
            let text_len = len - at - 1;
            if ns[0] > u32::MAX as u64 || ns[1] > u32::MAX as u64 || ns[2] > 1 || ns[3]
                > text_len as u64 {
                return None;
            }
            let name_len = ns[3] as usize;
            if ns[2] == 0 && name_len != text_len {
                return None;
            }
            let ghost text = text_of(tail).unwrap();
            let username = copy_text(data, at + 1, at + 1 + name_len);
            assert(username@ =~= text.subrange(0, name_len as int));
            let password = if ns[2] == 1 {
                let p = copy_text(data, at + 1 + name_len, len);
                assert(p@ =~= text.subrange(name_len as int, text.len() as int));
                Some(p)
            } else {
                None
            };
            Some(
                Message::InitServer {
                    username,
                    screen_width: ns[0] as u32,
                    screen_height: ns[1] as u32,
                    password,
                },
            )
        },
        Kind::InitClient => {
            if at != len {
                return None;
            }
            Some(Message::InitClient { id: ns[0] })
        },
        Kind::Tick => {
            if at != len {
                return None;
            }
            Some(Message::Tick)
        },
        Kind::MoveEntity => {
            if at != len || ns[1] < 1 || ns[1] > 4 {
                return None;
            }
            Some(Message::MoveEntity { id: ns[0], direction: Orientation::from(ns[1] as u8) })
        },
        Kind::TpEntity => {
            if at != len {
                return None;
            }
            match read_coords(ns, 1) {
                Some(coords) => Some(Message::TpEntity { id: ns[0], coords }),
                None => None,
            }
        },
        Kind::Ping => {
            if at != len {
                return None;
            }
            Some(Message::Ping)
        },
        Kind::Kick => {
            if !has_text {
                return None;
            }
            Some(Message::Kick(copy_text(data, at + 1, len)))
        },
    }
}

impl Message {
    /// Writes the message as a frame.
    #[verifier::rlimit(40)]
    pub fn encode(&self) -> (r: String)
        ensures
            r@ == encode_spec(self@),
            is_wire(self@),
    {
        match self {
            Message::ChatMessage { sender_id, receiver_id, message } => {
                let mut out = String::from_str(tag_text(Kind::ChatMessage));
                let ns = vec![*sender_id, *receiver_id];
                assert(ns@ =~= numbers_of(self@));
                push_fields(&mut out, &ns);
                push_text(&mut out, message.as_str());
                out
            },
            Message::Chunk(chunk) => {
                let mut out = String::from_str(tag_text(Kind::Chunk));
                let ns = vec![chunk.x, chunk.y];
                assert(ns@ =~= numbers_of(self@));
                push_fields(&mut out, &ns);
                push_grid(&mut out, &chunk.blocks);
                out
            },
            Message::UnloadChunk { x, y } => {
                let mut out = String::from_str(tag_text(Kind::UnloadChunk));
                let ns = vec![*x, *y];
                assert(ns@ =~= numbers_of(self@));
                push_fields(&mut out, &ns);
                assert(out@ =~= encode_spec(self@));
                out
            },
            Message::CreateEntity(entity) => {
                let mut out = String::from_str(tag_text(Kind::CreateEntity));
                let coords = entity.get_coords();
                let ns = vec![
                    coords.x.main,
                    coords.x.additionnal as u64,
                    coords.y.main,
                    coords.y.additionnal as u64,
                    entity.get_id(),
                    type_number(*entity.get_type()),
                ];
                assert(ns@ =~= numbers_of(self@));
                push_fields(&mut out, &ns);
                push_text(&mut out, entity.get_name().as_str());
                out
            },
            Message::InitServer { username, screen_width, screen_height, password } => {
                let mut out = String::from_str(tag_text(Kind::InitServer));
                let name_len = username.as_str().unicode_len();
                let flag: u64 = match password {
                    Some(_) => 1,
                    None => 0,
                };
                let ns = vec![*screen_width as u64, *screen_height as u64, flag, name_len as u64];
                assert(ns@ =~= numbers_of(self@));
                push_fields(&mut out, &ns);
                push_text(&mut out, username.as_str());
                match password {
                    Some(p) => {
                        out.append(p.as_str());
                    },
                    None => {},
                }
                assert(out@ =~= encode_spec(self@));
                out
            },
            Message::InitClient { id } => {
                let mut out = String::from_str(tag_text(Kind::InitClient));
                let ns = vec![*id];
                assert(ns@ =~= numbers_of(self@));
                push_fields(&mut out, &ns);
                assert(out@ =~= encode_spec(self@));
                out
            },
            Message::Tick => {
                let out = String::from_str(tag_text(Kind::Tick));
                assert(out@ =~= encode_spec(self@));
                out
            },
            Message::MoveEntity { id, direction } => {
                let mut out = String::from_str(tag_text(Kind::MoveEntity));
                let ns = vec![*id, orientation_number(*direction)];
                assert(ns@ =~= numbers_of(self@));
                push_fields(&mut out, &ns);
                assert(out@ =~= encode_spec(self@));
                out
            },
            Message::TpEntity { id, coords } => {
                let mut out = String::from_str(tag_text(Kind::TpEntity));
                let ns = vec![
                    *id,
                    coords.x.main,
                    coords.x.additionnal as u64,
                    coords.y.main,
                    coords.y.additionnal as u64,
                ];
                assert(ns@ =~= numbers_of(self@));
                push_fields(&mut out, &ns);
                assert(out@ =~= encode_spec(self@));
                out
            },
            Message::Ping => {
                let out = String::from_str(tag_text(Kind::Ping));
                assert(out@ =~= encode_spec(self@));
                out
            },
            Message::Kick(reason) => {
                let mut out = String::from_str(tag_text(Kind::Kick));
                assert(fields(numbers_of(self@)) =~= Seq::<char>::empty());
                push_text(&mut out, reason.as_str());
                assert(out@ =~= encode_spec(self@));
                out
            },
        }
    }

    /// Reads a frame: the message that it writes, or why it writes none.
    pub fn decode(data: String) -> (r: Result<Message, DecodeError>)
        ensures
            match r {
                Ok(message) => decode_spec(data@) == Ok::<MessageView, DecodeError>(message@),
                Err(e) => decode_spec(data@) == Err::<MessageView, DecodeError>(e),
            },
    {
        let chars = to_chars(data.as_str());
        let kind = match find_kind(&chars) {
            Some(kind) => kind,
            None => {
                return Err(DecodeError::UnknownTag);
            },
        };
        let at = tag_text(kind).unicode_len();
        let count = field_count(kind);
        let ns = match read_fields(&chars, at, count) {
            Some(ns) => ns,
            None => {
                return Err(DecodeError::Malformed);
            },
        };
        proof {
            crate::codec::lemma_fields_canonical(chars@, at as int, count as nat);
        }
        match build(kind, &ns, data.as_str(), &chars, at + 21 * count) {
            Some(message) => Ok(message),
            None => Err(DecodeError::Malformed),
        }
    }
}

} // verus!
