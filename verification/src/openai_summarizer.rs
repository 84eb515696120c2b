//! The remote summarizer: how a transcript is cut into chunks that the
//! service can take, what is asked of the service, and how its answers
//! make the summary.

use vstd::prelude::*;
use crate::openai::{ChatCompletionRequest, Message};
use crate::text::{from_chars, line_views, lines_of, split_lines, texts, to_chars};
use crate::webvtt::{is_timing_line, timing_line};

verus! {

/// The tokens into which the `cl100k_base` encoding splits a text, special
/// tokens allowed; `None` where the encoder gives up on the text.
pub uninterp spec fn cl100k_encoding(text: Seq<char>) -> Option<Seq<u32>>;

/// The tokens of `text` in the `cl100k_base` encoding.
///
/// Trusted: `tiktoken_rs::cl100k_base_singleton` and `CoreBPE::encode` with
/// all special tokens allowed, which is what
/// `encode_with_special_tokens` computes. The encoding is a function of the
/// text alone; the contract names it and says no more of it.
#[verifier::external_body]
fn encode_cl100k(text: &str) -> (tokens: Option<Vec<u32>>)
    ensures
        match tokens {
            Some(t) => cl100k_encoding(text@) == Some(t@),
            None => cl100k_encoding(text@) is None,
        },
{
    let bpe = tiktoken_rs::cl100k_base_singleton();
    match bpe.encode(text, &bpe.special_tokens()) {
        Ok((tokens, _)) => Some(tokens),
        Err(_) => None,
    }
}

/// The number of tokens of a line.
pub open spec fn token_count(line: Seq<char>) -> Option<nat> {
    match cl100k_encoding(line) {
        Some(tokens) => Some(tokens.len()),
        None => None,
    }
}

/// The numbers of tokens of the lines, where every line has one.
pub open spec fn token_counts(lines: Seq<Seq<char>>) -> Option<Seq<nat>>
    decreases lines.len(),
{
    if lines.len() == 0 {
        Some(Seq::empty())
    } else {
        match (token_counts(lines.drop_last()), token_count(lines.last())) {
            (Some(counts), Some(n)) => Some(counts.push(n)),
            _ => None,
        }
    }
}

/// Whether a line of a transcript is spoken text: it is not empty and it
/// is no timing.
pub open spec fn is_content_line(line: Seq<char>) -> bool {
    line.len() > 0 && !is_timing_line(line)
}

/// The lines of spoken text among `lines`, in order.
pub open spec fn content_lines(lines: Seq<Seq<char>>) -> Seq<Seq<char>>
    decreases lines.len(),
{
    if lines.len() == 0 {
        Seq::empty()
    } else if is_content_line(lines.last()) {
        content_lines(lines.drop_last()).push(lines.last())
    } else {
        content_lines(lines.drop_last())
    }
}

/// Where the cutting stands after some lines: the chunks that are closed,
/// the chunk that is open, and the number of tokens in the open chunk.
pub struct ChunkState {
    pub done: Seq<Seq<char>>,
    pub current: Seq<char>,
    pub tokens: nat,
}

/// Where the cutting stands after `lines`. A line that would take the
/// open chunk over `chunk_size` tokens closes it and opens the next; every
/// line goes into the open chunk with a line feed behind it.
pub open spec fn chunk_state(lines: Seq<Seq<char>>, counts: Seq<nat>, chunk_size: nat) -> ChunkState
    decreases lines.len(),
{
    if lines.len() == 0 || counts.len() == 0 {
        ChunkState { done: Seq::empty(), current: Seq::empty(), tokens: 0 }
    } else {
        let s = chunk_state(lines.drop_last(), counts.drop_last(), chunk_size);
        let n = counts.last();
        if s.tokens + n > chunk_size {
            ChunkState {
                done: s.done.push(s.current),
                current: lines.last().push('\n'),
                tokens: n,
            }
        } else {
            ChunkState {
                done: s.done,
                current: s.current + lines.last().push('\n'),
                tokens: s.tokens + n,
            }
        }
    }
}

/// The chunks into which `lines` are cut: the closed ones and, where it
/// holds anything, the open one.
pub open spec fn chunks_of(lines: Seq<Seq<char>>, counts: Seq<nat>, chunk_size: nat) -> Seq<
    Seq<char>,
> {
    let s = chunk_state(lines, counts, chunk_size);
    if s.current.len() > 0 {
        s.done.push(s.current)
    } else {
        s.done
    }
}

/// The numbers of `v` as natural numbers.
pub open spec fn sizes(v: Seq<usize>) -> Seq<nat> {
    Seq::new(v.len(), |i: int| v[i] as nat)
}

/// Cuts `lines`, of which `counts` gives the numbers of tokens, into
/// chunks of at most `chunk_size` tokens, as far as single lines allow.
pub fn split_counted(lines: &Vec<String>, counts: &Vec<usize>, chunk_size: usize) -> (chunks: Vec<
    String,
>)
    requires
        lines.len() == counts.len(),
    ensures
        texts(chunks@) == chunks_of(texts(lines@), sizes(counts@), chunk_size as nat),
{
    let ghost all = texts(lines@);
    let ghost nums = sizes(counts@);
    let mut chunks: Vec<String> = Vec::new();
    let mut current = String::new();
    let mut tokens: u128 = 0;
    let mut i: usize = 0;
    proof {
        assert(all.take(0) =~= Seq::<Seq<char>>::empty());
        assert(texts(chunks@) =~= Seq::<Seq<char>>::empty());
    }
    while i < lines.len()
        invariant
            i <= lines.len(),
            lines.len() == counts.len(),
            all == texts(lines@),
            nums == sizes(counts@),
            tokens <= i * usize::MAX,
            texts(chunks@) == chunk_state(all.take(i as int), nums.take(i as int), chunk_size as nat).done,
            current@ == chunk_state(
                all.take(i as int),
                nums.take(i as int),
                chunk_size as nat,
            ).current,
            tokens == chunk_state(all.take(i as int), nums.take(i as int), chunk_size as nat).tokens,
        decreases lines.len() - i,
    {
        let ghost done = texts(chunks@);
        proof {
            assert(all.take(i + 1).drop_last() =~= all.take(i as int));
            assert(nums.take(i + 1).drop_last() =~= nums.take(i as int));
            assert(all.take(i + 1).last() == lines@[i as int]@);
            assert(nums.take(i + 1).last() == counts@[i as int] as nat);
            assert(i * usize::MAX + usize::MAX == (i + 1) * usize::MAX) by (nonlinear_arith);
            assert((i + 1) * usize::MAX <= usize::MAX * usize::MAX) by (nonlinear_arith)
                requires
                    i + 1 <= usize::MAX,
            ;
            assert(usize::MAX * usize::MAX < u128::MAX) by (nonlinear_arith)
                requires
                    usize::MAX <= 0xffff_ffff_ffff_ffff,
            ;
            reveal_strlit("\n");
            assert("\n"@ =~= seq!['\n']);
        }
        let n: u128 = counts[i] as u128;
        if tokens + n > chunk_size as u128 {
            chunks.push(current);
            current = String::new();
            tokens = 0;
            proof {
                assert(texts(chunks@) =~= done.push(
                    chunk_state(all.take(i as int), nums.take(i as int), chunk_size as nat).current,
                ));
            }
        }
        let ghost open = current@;
        current.append(lines[i].as_str());
        current.append("\n");
        proof {
            assert(current@ =~= open + lines@[i as int]@.push('\n'));
            if open.len() == 0 {
                assert(current@ =~= lines@[i as int]@.push('\n'));
            }
        }
        tokens = tokens + n;
        i += 1;
    }
    proof {
        assert(all.take(lines.len() as int) =~= all);
        assert(nums.take(lines.len() as int) =~= nums);
    }
    let ghost done = texts(chunks@);
    let open = to_chars(current.as_str());
    if open.len() > 0 {
        chunks.push(current);
        proof {
            assert(texts(chunks@) =~= done.push(current@));
        }
    }
    chunks
}

/// The lines of spoken text of a transcript.
pub fn spoken_lines(src: &str) -> (lines: Vec<String>)
    ensures
        texts(lines@) == content_lines(lines_of(src@)),
{
    let chars = to_chars(src);
    let all = split_lines(&chars);
    let mut lines: Vec<String> = Vec::new();
    let mut i: usize = 0;
    proof {
        assert(line_views(all@).take(0) =~= Seq::<Seq<char>>::empty());
        assert(texts(lines@) =~= Seq::<Seq<char>>::empty());
    }
    while i < all.len()
        invariant
            i <= all.len(),
            texts(lines@) == content_lines(line_views(all@).take(i as int)),
        decreases all.len() - i,
    {
        let ghost before = texts(lines@);
        proof {
            assert(line_views(all@).take(i + 1).drop_last() =~= line_views(all@).take(i as int));
            assert(line_views(all@).take(i + 1).last() == all@[i as int]@);
        }
        if all[i].len() > 0 && !timing_line(&all[i]) {
            lines.push(from_chars(&all[i]));
            proof {
                assert(texts(lines@) =~= before.push(all@[i as int]@));
            }
        }
        i += 1;
    }
    proof {
        assert(line_views(all@).take(all.len() as int) =~= line_views(all@));
    }
    lines
}

/// The numbers of tokens of the lines; `None` where the encoder gives up
/// on one of them.
pub fn count_tokens(lines: &Vec<String>) -> (counts: Option<Vec<usize>>)
    ensures
        match counts {
            Some(c) => c.len() == lines.len() && token_counts(texts(lines@)) == Some(sizes(c@)),
            None => token_counts(texts(lines@)) is None,
        },
{
    let ghost all = texts(lines@);
    let mut counts: Vec<usize> = Vec::new();
    let mut i: usize = 0;
    proof {
        assert(all.take(0) =~= Seq::<Seq<char>>::empty());
        assert(sizes(counts@) =~= Seq::<nat>::empty());
    }
    while i < lines.len()
        invariant
            i <= lines.len(),
            counts.len() == i,
            all == texts(lines@),
            token_counts(all.take(i as int)) == Some(sizes(counts@)),
        decreases lines.len() - i,
    {
        let ghost before = sizes(counts@);
        proof {
            assert(all.take(i + 1).drop_last() =~= all.take(i as int));
            assert(all.take(i + 1).last() == lines@[i as int]@);
        }
        match encode_cl100k(lines[i].as_str()) {
            Some(tokens) => {
                counts.push(tokens.len());
                proof {
                    assert(sizes(counts@) =~= before.push(tokens@.len()));
                }
            },
            None => {
                proof {
                    lemma_counts_none(all, i as int);
                }
                return None;
            },
        }
        i += 1;
    }
    proof {
        assert(all.take(lines.len() as int) =~= all);
    }
    Some(counts)
}

/// Where one line has no number of tokens, the lines have none.
pub proof fn lemma_counts_none(lines: Seq<Seq<char>>, k: int)
    requires
        0 <= k < lines.len(),
        token_count(lines[k]) is None,
    ensures
        token_counts(lines) is None,
    decreases lines.len(),
{
    if k < lines.len() - 1 {
        lemma_counts_none(lines.drop_last(), k);
    }
}

/// Cuts the spoken text of a transcript into chunks of at most
/// `chunk_size` tokens, as far as single lines allow; `None` where the
/// encoder gives up on a line.
pub fn split(src: &str, chunk_size: usize) -> (chunks: Option<Vec<String>>)
    ensures
        match chunks {
            Some(c) => token_counts(content_lines(lines_of(src@))) is Some && texts(c@)
                == chunks_of(
                content_lines(lines_of(src@)),
                token_counts(content_lines(lines_of(src@)))->0,
                chunk_size as nat,
            ),
            None => token_counts(content_lines(lines_of(src@))) is None,
        },
{
    let lines = spoken_lines(src);
    match count_tokens(&lines) {
        Some(counts) => Some(split_counted(&lines, &counts, chunk_size)),
        None => None,
    }
}

/// What the service is told to do with a chunk.
pub open spec fn system_prompt() -> Seq<char> {
    "Please summarize the main discussions and conclusions of this\n                meeting and organize the result in Markdown format. Specifically,\n                present the title as a section header on the first line, followed\n                by the content in bullet point format. The purpose is to make\n                the content easily comprehensible for later review.\n                Output text must be in Japanese."@
}

/// A message of the given role and content.
fn message(role: &str, content: &str) -> (m: Message)
    ensures
        m.role@ == role@,
        m.content@ == content@,
{
    let mut r = String::new();
    r.append(role);
    let mut c = String::new();
    c.append(content);
    proof {
        assert(r@ =~= role@);
        assert(c@ =~= content@);
    }
    Message { role: r, content: c }
}

/// The request that asks the service to summarize `content`.
pub fn summary_request(content: &str) -> (request: ChatCompletionRequest)
    ensures
        request.model@ == "gpt-4-32k"@,
        request.messages.len() == 2,
        request.messages[0].role@ == "system"@,
        request.messages[0].content@ == system_prompt(),
        request.messages[1].role@ == "user"@,
        request.messages[1].content@ == content@,
{
    let mut messages: Vec<Message> = Vec::new();
    messages.push(
        message(
            "system",
            "Please summarize the main discussions and conclusions of this\n                meeting and organize the result in Markdown format. Specifically,\n                present the title as a section header on the first line, followed\n                by the content in bullet point format. The purpose is to make\n                the content easily comprehensible for later review.\n                Output text must be in Japanese.",
        ),
    );
    messages.push(message("user", content));
    let mut model = String::new();
    model.append("gpt-4-32k");
    proof {
        assert(model@ =~= "gpt-4-32k"@);
    }
    ChatCompletionRequest { model, messages }
}

/// The summary that the answers to the chunks make: the answers in
/// order, each followed by an empty line; a chunk that got no answer
/// leaves no trace.
pub open spec fn joined_answers(answers: Seq<Result<String, String>>) -> Seq<char>
    decreases answers.len(),
{
    if answers.len() == 0 {
        Seq::empty()
    } else {
        joined_answers(answers.drop_last()) + match answers.last() {
            Ok(text) => text@ + seq!['\n', '\n'],
            Err(_) => Seq::empty(),
        }
    }
}

/// The summary that the answers to the chunks make.
pub fn join_answers(answers: &Vec<Result<String, String>>) -> (summary: String)
    ensures
        summary@ == joined_answers(answers@),
{
    let mut summary = String::new();
    let mut i: usize = 0;
    proof {
        assert(answers@.take(0) =~= Seq::<Result<String, String>>::empty());
    }
    while i < answers.len()
        invariant
            i <= answers.len(),
            summary@ == joined_answers(answers@.take(i as int)),
        decreases answers.len() - i,
    {
        let ghost before = summary@;
        proof {
            assert(answers@.take(i + 1).drop_last() =~= answers@.take(i as int));
            assert(answers@.take(i + 1).last() == answers@[i as int]);
            reveal_strlit("\n\n");
            assert("\n\n"@ =~= seq!['\n', '\n']);
        }
        match &answers[i] {
            Ok(text) => {
                summary.append(text.as_str());
                summary.append("\n\n");
                proof {
                    assert(summary@ =~= before + (text@ + seq!['\n', '\n']));
                }
            },
            Err(_) => {
                proof {
                    assert(before + Seq::<char>::empty() =~= before);
                }
            },
        }
        i += 1;
    }
    proof {
        assert(answers@.take(answers.len() as int) =~= answers@);
    }
    summary
}

} // verus!
