//! The desktop view of a conversation as a column of blocks: a label per
//! message, its chunks, spacers between them, the streaming answer with its
//! cursor, or a hint when there is nothing yet. Drawing the blocks is the
//! caller's part.

use vstd::prelude::*;

use crate::screen::{DisplayMessage, Role, StreamChunk};
use crate::stream::{chunk_view, chunks_view, ChunkView};
use crate::input_box::{char_index, lemma_char_index, lemma_prefix_len_monotone, on_boundary};
use crate::read::min;
use crate::text::{char_utf8_width, decimal, lemma_utf8_len_push, push_str, push_usize, to_chars, utf8_len};

verus! {

/// What a block shows.
#[derive(Debug, Clone, Copy, PartialEq, Eq, Structural)]
pub enum ThreadBlockKind {
    UserLabel,
    AssistantLabel,
    Markdown,
    ReasoningMarkdown,
    Tool,
    Cursor,
    Hint,
    Spacer,
}

/// A block of the conversation: its kind, its text, and for rendered
/// markdown an identifier (`prefix-index` of its chunk).
#[derive(Debug)]
pub struct ThreadBlock {
    pub kind: ThreadBlockKind,
    pub text: String,
    pub markdown_id: Option<String>,
}

/// A block, as values.
pub struct BlockView {
    pub kind: ThreadBlockKind,
    pub text: Seq<char>,
    pub markdown_id: Option<Seq<char>>,
}

pub open spec fn block_view(b: ThreadBlock) -> BlockView {
    BlockView {
        kind: b.kind,
        text: b.text@,
        markdown_id: match b.markdown_id {
            Some(m) => Some(m@),
            None => None,
        },
    }
}

pub open spec fn blocks_view(v: Seq<ThreadBlock>) -> Seq<BlockView> {
    v.map_values(|b: ThreadBlock| block_view(b))
}

pub open spec fn spacer() -> BlockView {
    BlockView { kind: ThreadBlockKind::Spacer, text: Seq::empty(), markdown_id: None }
}

/// The block of chunk `i`: markdown (reasoning or answer) with the id
/// `prefix-i`, or a tool line.
pub open spec fn chunk_block(c: ChunkView, prefix: Seq<char>, i: nat) -> BlockView {
    match c {
        ChunkView::Reasoning(s) => BlockView {
            kind: ThreadBlockKind::ReasoningMarkdown,
            text: s,
            markdown_id: Some(prefix + "-"@ + decimal(i)),
        },
        ChunkView::Text(s) => BlockView {
            kind: ThreadBlockKind::Markdown,
            text: s,
            markdown_id: Some(prefix + "-"@ + decimal(i)),
        },
        ChunkView::Tool(s) => BlockView { kind: ThreadBlockKind::Tool, text: s, markdown_id: None },
    }
}

/// The blocks of a run of chunks: each chunk's block, with a spacer before
/// every chunk but the first, except between two tool lines.
pub open spec fn chunk_blocks(cs: Seq<ChunkView>, prefix: Seq<char>) -> Seq<BlockView>
    decreases cs.len(),
{
    if cs.len() == 0 {
        Seq::empty()
    } else {
        let i = cs.len() - 1;
        let rest = chunk_blocks(cs.drop_last(), prefix);
        let sep = if i > 0 && !(cs[i - 1] is Tool && cs[i] is Tool) {
            seq![spacer()]
        } else {
            Seq::empty()
        };
        rest + sep + seq![chunk_block(cs[i], prefix, i as nat)]
    }
}

pub open spec fn label_block(r: Role) -> BlockView {
    match r {
        Role::User => BlockView { kind: ThreadBlockKind::UserLabel, text: "You"@, markdown_id: None },
        Role::Assistant => BlockView { kind: ThreadBlockKind::AssistantLabel, text: "Assistant"@, markdown_id: None },
    }
}

/// The blocks of the messages: each message's label and chunk blocks (ids
/// `msg-k-i`), with a spacer between messages.
pub open spec fn message_blocks(ms: Seq<DisplayMessage>) -> Seq<BlockView>
    decreases ms.len(),
{
    if ms.len() == 0 {
        Seq::empty()
    } else {
        let k = ms.len() - 1;
        let rest = message_blocks(ms.drop_last());
        let sep = if k > 0 {
            seq![spacer()]
        } else {
            Seq::empty()
        };
        rest + sep + seq![label_block(ms[k].role)] + chunk_blocks(chunks_view(ms[k].chunks@), "msg-"@ + decimal(k as nat))
    }
}

/// All blocks: the messages; then, while an answer streams or has chunks,
/// a spacer (after messages), the assistant label, the streamed chunks (ids
/// `stream-i`) and, while streaming, the cursor (`▌` or a blank as it
/// blinks); a hint when there is nothing.
pub open spec fn thread_blocks(ms: Seq<DisplayMessage>, stream: Seq<ChunkView>, generating: bool, blink_on: bool) -> Seq<BlockView> {
    let base = message_blocks(ms);
    let with_stream = if generating || stream.len() > 0 {
        let sep = if base.len() > 0 {
            seq![spacer()]
        } else {
            Seq::empty()
        };
        let cursor = if generating {
            seq![BlockView { kind: ThreadBlockKind::Cursor, text: if blink_on { seq!['▌'] } else { seq![' '] }, markdown_id: None }]
        } else {
            Seq::empty()
        };
        base + sep + seq![label_block(Role::Assistant)] + chunk_blocks(stream, "stream"@) + cursor
    } else {
        base
    };
    if with_stream.len() == 0 {
        seq![
            BlockView {
                kind: ThreadBlockKind::Hint,
                text: "Type a message and press Enter. Use Shift+Enter for newline."@,
                markdown_id: None,
            },
        ]
    } else {
        with_stream
    }
}

fn spacer_block() -> (b: ThreadBlock)
    ensures
        block_view(b) == spacer(),
{
    let b = ThreadBlock { kind: ThreadBlockKind::Spacer, text: String::new(), markdown_id: None };
    assert(block_view(b) =~= spacer());
    b
}

fn label_of_role(r: Role) -> (b: ThreadBlock)
    ensures
        block_view(b) == label_block(r),
{
    match r {
        Role::User => ThreadBlock { kind: ThreadBlockKind::UserLabel, text: "You".to_owned(), markdown_id: None },
        Role::Assistant => ThreadBlock {
            kind: ThreadBlockKind::AssistantLabel,
            text: "Assistant".to_owned(),
            markdown_id: None,
        },
    }
}

/// Appends the blocks of a run of chunks.
fn append_chunk_blocks(chunks: &Vec<StreamChunk>, prefix: &str, blocks: &mut Vec<ThreadBlock>)
    ensures
        blocks_view(final(blocks)@) == blocks_view(old(blocks)@) + chunk_blocks(chunks_view(chunks@), prefix@),
{
    let ghost cv = chunks_view(chunks@);
    let ghost start = blocks_view(blocks@);
    for i in 0..chunks.len()
        invariant
            cv == chunks_view(chunks@),
            blocks_view(blocks@) == start + chunk_blocks(cv.take(i as int), prefix@),
    {
        let ghost before = blocks_view(blocks@);
        let ghost t = cv.take(i + 1);
        proof {
            assert(t.drop_last() == cv.take(i as int));
            assert(t[i as int] == chunk_view(chunks@[i as int]));
            if i > 0 {
                assert(t[i - 1] == chunk_view(chunks@[i - 1]));
            }
        }
        let ghost sep = if i > 0 && !(t[i - 1] is Tool && t[i as int] is Tool) {
            seq![spacer()]
        } else {
            Seq::<BlockView>::empty()
        };
        if i > 0 {
            let prev_tool = match &chunks[i - 1] {
                StreamChunk::Tool(_) => true,
                _ => false,
            };
            let curr_tool = match &chunks[i] {
                StreamChunk::Tool(_) => true,
                _ => false,
            };
            if !prev_tool || !curr_tool {
                blocks.push(spacer_block());
            }
        }
        let ghost mid = blocks_view(blocks@);
        assert(mid =~= before + sep);
        let block = match &chunks[i] {
            StreamChunk::Reasoning(s) => {
                let mut id = String::new();
                push_str(&mut id, prefix);
                push_str(&mut id, "-");
                push_usize(&mut id, i);
                ThreadBlock { kind: ThreadBlockKind::ReasoningMarkdown, text: s.clone(), markdown_id: Some(id) }
            },
            StreamChunk::Text(s) => {
                let mut id = String::new();
                push_str(&mut id, prefix);
                push_str(&mut id, "-");
                push_usize(&mut id, i);
                ThreadBlock { kind: ThreadBlockKind::Markdown, text: s.clone(), markdown_id: Some(id) }
            },
            StreamChunk::Tool(s) => ThreadBlock { kind: ThreadBlockKind::Tool, text: s.clone(), markdown_id: None },
        };
        assert(block_view(block) == chunk_block(t[i as int], prefix@, i as nat));
        blocks.push(block);
        proof {
            assert(blocks_view(blocks@) =~= mid.push(chunk_block(t[i as int], prefix@, i as nat)));
            assert(blocks_view(blocks@) =~= start + chunk_blocks(t, prefix@));
        }
    }
    assert(cv.take(chunks.len() as int) == cv);
}

/// The blocks of the conversation (see `thread_blocks`).
pub fn build_thread_blocks(
    messages: &Vec<DisplayMessage>,
    stream_chunks: &Vec<StreamChunk>,
    generating: bool,
    cursor_blink_on: bool,
) -> (r: Vec<ThreadBlock>)
    ensures
        blocks_view(r@) == thread_blocks(messages@, chunks_view(stream_chunks@), generating, cursor_blink_on),
{
    let mut blocks: Vec<ThreadBlock> = Vec::new();
    assert(blocks_view(blocks@) =~= Seq::<BlockView>::empty());
    for k in 0..messages.len()
        invariant
            blocks_view(blocks@) == message_blocks(messages@.take(k as int)),
    {
        let ghost t = messages@.take(k + 1);
        proof {
            assert(t.drop_last() == messages@.take(k as int));
            assert(t[k as int] == messages@[k as int]);
            if k > 0 {
                lemma_message_blocks_nonempty(messages@.take(k as int));
            }
        }
        if blocks.len() > 0 {
            blocks.push(spacer_block());
        }
        blocks.push(label_of_role(messages[k].role));
        let mut prefix = String::new();
        push_str(&mut prefix, "msg-");
        push_usize(&mut prefix, k);
        append_chunk_blocks(&messages[k].chunks, prefix.as_str(), &mut blocks);
        assert(blocks_view(blocks@) =~= message_blocks(t));
    }
    assert(messages@.take(messages.len() as int) == messages@);
    let ghost base = blocks_view(blocks@);
    if generating || stream_chunks.len() > 0 {
        let ghost sep = if base.len() > 0 {
            seq![spacer()]
        } else {
            Seq::<BlockView>::empty()
        };
        if blocks.len() > 0 {
            blocks.push(spacer_block());
        }
        blocks.push(label_of_role(Role::Assistant));
        assert(blocks_view(blocks@) =~= base + sep + seq![label_block(Role::Assistant)]);
        append_chunk_blocks(stream_chunks, "stream", &mut blocks);
        proof {
            reveal_strlit("stream");
        }
        let ghost with_chunks = blocks_view(blocks@);
        if generating {
            let text = if cursor_blink_on {
                "▌".to_owned()
            } else {
                " ".to_owned()
            };
            proof {
                reveal_strlit("▌");
                reveal_strlit(" ");
                if cursor_blink_on {
                    assert(text@ =~= seq!['▌']);
                } else {
                    assert(text@ =~= seq![' ']);
                }
            }
            blocks.push(ThreadBlock { kind: ThreadBlockKind::Cursor, text, markdown_id: None });
            assert(blocks_view(blocks@) =~= with_chunks.push(BlockView {
                kind: ThreadBlockKind::Cursor,
                text: if cursor_blink_on { seq!['▌'] } else { seq![' '] },
                markdown_id: None,
            }));
        }
        proof {
            assert(blocks_view(blocks@).len() > 0);
        }
    }
    if blocks.len() == 0 {
        blocks.push(
            ThreadBlock {
                kind: ThreadBlockKind::Hint,
                text: "Type a message and press Enter. Use Shift+Enter for newline.".to_owned(),
                markdown_id: None,
            },
        );
    }
    assert(blocks_view(blocks@) =~= thread_blocks(messages@, chunks_view(stream_chunks@), generating, cursor_blink_on));
    blocks
}

proof fn lemma_message_blocks_nonempty(ms: Seq<DisplayMessage>)
    requires
        ms.len() > 0,
    ensures
        message_blocks(ms).len() > 0,
{
}

// ---------------------------------------------------------------------------
// Cursor positions
// ---------------------------------------------------------------------------

/// The (line, column) reached after the characters `s`: a newline starts
/// the next line at column 0, any other character moves one column.
pub open spec fn position_after(s: Seq<char>) -> (nat, nat)
    decreases s.len(),
{
    if s.len() == 0 {
        (0, 0)
    } else {
        let (l, c) = position_after(s.drop_last());
        if s.last() == '\n' {
            (l + 1, 0)
        } else {
            (l, c + 1)
        }
    }
}

proof fn lemma_position_bounded(s: Seq<char>)
    ensures
        position_after(s).0 <= s.len(),
        position_after(s).1 <= s.len(),
    decreases s.len(),
{
    if s.len() > 0 {
        lemma_position_bounded(s.drop_last());
    }
}

/// The (line, column) of a byte offset of the text (an offset past the end
/// counts as the end). The offset must start a character.
pub fn byte_offset_to_position(text: &str, byte_offset: usize) -> (p: (u32, u32))
    requires
        text@.len() <= u32::MAX,
        on_boundary(text@, min(byte_offset as int, utf8_len(text@) as int)),
    ensures
        ({
            let k = char_index(text@, min(byte_offset as int, utf8_len(text@) as int));
            p.0 == position_after(text@.take(k)).0 && p.1 == position_after(text@.take(k)).1
        }),
{
    let cs = to_chars(text);
    let total = text.as_bytes().len();
    let end = if byte_offset < total {
        byte_offset
    } else {
        total
    };
    let mut line: u32 = 0;
    let mut col: u32 = 0;
    let mut bytes: usize = 0;
    let mut i: usize = 0;
    proof {
        lemma_char_index(cs@, end as int);
    }
    let ghost k = char_index(cs@, end as int);
    while i < cs.len() && bytes < end
        invariant
            cs@ == text@,
            cs.len() <= u32::MAX,
            0 <= k <= cs.len(),
            utf8_len(cs@.take(k)) == end,
            end <= total == utf8_len(cs@),
            i <= k,
            bytes == utf8_len(cs@.take(i as int)),
            line == position_after(cs@.take(i as int)).0,
            col == position_after(cs@.take(i as int)).1,
        decreases cs.len() - i,
    {
        proof {
            if i == k {
                assert(bytes == end);
            }
            lemma_utf8_len_push(cs@.take(i as int), cs@[i as int]);
            assert(cs@.take(i + 1) == cs@.take(i as int).push(cs@[i as int]));
            assert(cs@.take(i + 1).drop_last() == cs@.take(i as int));
            lemma_position_bounded(cs@.take(i as int));
        }
        proof {
            if i + 1 < cs.len() {
                lemma_prefix_len_monotone(cs@, i + 1, cs.len() as int);
            }
            assert(cs@.take(cs.len() as int) == cs@);
        }
        let c = cs[i];
        if c == '\n' {
            line = line + 1;
            col = 0;
        } else {
            col = col + 1;
        }
        bytes = bytes + char_utf8_width(c);
        i = i + 1;
        proof {
            if i > k {
                lemma_prefix_len_monotone(cs@, k, i as int);
            }
        }
    }
    proof {
        if i < k {
            lemma_prefix_len_monotone(cs@, i as int, k);
        }
    }
    (line, col)
}

} // verus!
