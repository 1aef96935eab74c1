//! What a program finds in its memory when it starts.
use super::plain::{ends_in_nul, points_to, word_in};
use crate::kernel::mem::{le32, lemma_word_round_trip};
use crate::kernel::state::CtxView;
use crate::syscall::io::random_bytes;
use crate::syscall::start::{
    header_len, start_bytes, start_words, string_at, string_offset, word_bytes,
};
use crate::syscall::stat::nul_ended;
use vstd::prelude::*;
use vstd::utf8::encode_utf8;

verus! {

proof fn lemma_words(words: Seq<u32>, i: int)
    requires
        0 <= i < words.len(),
    ensures
        word_bytes(words).len() == 4 * words.len(),
        word_in(word_bytes(words), 4 * i) == words[i],
    decreases words.len(),
{
    let front = words.drop_last();
    let last = words.last();
    lemma_word_round_trip(last);
    lemma_words_len(front);
    let b = word_bytes(words);
    if i < front.len() {
        lemma_words(front, i);
        let f = word_bytes(front);
        assert(b[4 * i] == f[4 * i] && b[4 * i + 1] == f[4 * i + 1] && b[4 * i + 2] == f[4 * i + 2]
            && b[4 * i + 3] == f[4 * i + 3]);
    } else {
        let l = le32(last);
        assert(b[4 * i] == l[0] && b[4 * i + 1] == l[1] && b[4 * i + 2] == l[2] && b[4 * i + 3]
            == l[3]);
    }
}

proof fn lemma_words_len(words: Seq<u32>)
    ensures
        word_bytes(words).len() == 4 * words.len(),
    decreases words.len(),
{
    if words.len() > 0 {
        lemma_words_len(words.drop_last());
    }
}

pub proof fn lemma_strings(list: Seq<Seq<u8>>, i: int, n: int)
    requires
        0 <= i < n <= list.len(),
    ensures
        ({
            let all = nul_ended(list, n);
            let from = nul_ended(list, i).len() as int;
            let to = from + list[i].len();
            &&& to < all.len()
            &&& all.subrange(from, to) == list[i]
            &&& all[to] == 0
        }),
    decreases n,
{
    let all = nul_ended(list, n);
    let before = nul_ended(list, n - 1);
    let from = nul_ended(list, i).len() as int;
    let to = from + list[i].len();
    if i < n - 1 {
        lemma_strings(list, i, n - 1);
        assert(all.subrange(from, to) =~= before.subrange(from, to));
    } else {
        assert(all.subrange(from, to) =~= list[i]);
    }
}

proof fn lemma_random_len(seed: u64, n: nat)
    ensures
        random_bytes(seed, n).len() == n,
    decreases n,
{
    if n > 0 {
        lemma_random_len(seed, (n - 1) as nat);
    }
}

/// The pieces of the block, by where they stand.
proof fn lemma_block(ctx: CtxView, base: u32, seed: u64, i: int)
    requires
        0 <= i < ctx.argv.len() + ctx.envp.len(),
    ensures
        ({
            let b = start_bytes(ctx, base, seed);
            let all = ctx.argv + ctx.envp;
            let from = string_offset(ctx, i);
            &&& 0 < from
            &&& from + all[i].len() < b.len()
            &&& b.subrange(from, from + all[i].len()) == all[i]
            &&& b[from + all[i].len()] == 0
        }),
{
    let all = ctx.argv + ctx.envp;
    let n = all.len() as int;
    let w = word_bytes(start_words(ctx, base));
    let r = random_bytes(seed, 16);
    let s = nul_ended(all, n);
    let e = encode_utf8(ctx.task.exe);
    lemma_words_len(start_words(ctx, base));
    lemma_start_words_len(ctx, base);
    lemma_random_len(seed, 16);
    lemma_strings(all, i, n);
    lemma_middle(w, r, s, e, nul_ended(all, i).len() as int, all[i]);
}

proof fn lemma_start_words_len(ctx: CtxView, base: u32)
    ensures
        4 * start_words(ctx, base).len() == header_len(ctx),
{
}

/// A string in the third of four pieces.
proof fn lemma_middle(
    w: Seq<u8>,
    r: Seq<u8>,
    s: Seq<u8>,
    e: Seq<u8>,
    from: int,
    text: Seq<u8>,
)
    requires
        0 <= from,
        from + text.len() < s.len(),
        s.subrange(from, from + text.len()) == text,
        s[from + text.len()] == 0,
    ensures
        ({
            let b = w + r + s + e + seq![0u8];
            let at = w.len() + r.len() + from;
            &&& at + text.len() < b.len()
            &&& b.subrange(at, at + text.len()) == text
            &&& b[at + text.len()] == 0
        }),
{
    let b = w + r + s + e + seq![0u8];
    let at = w.len() + r.len() + from;
    assert(b.subrange(at, at + text.len()) =~= s.subrange(from, from + text.len()));
}

/// The word at place `i` of the block.
proof fn lemma_block_word(ctx: CtxView, base: u32, seed: u64, i: int)
    requires
        0 <= i < start_words(ctx, base).len(),
    ensures
        4 * i + 4 <= start_bytes(ctx, base, seed).len(),
        word_in(start_bytes(ctx, base, seed), 4 * i) == start_words(ctx, base)[i],
{
    let words = start_words(ctx, base);
    let w = word_bytes(words);
    let b = start_bytes(ctx, base, seed);
    lemma_words(words, i);
    assert(b[4 * i] == w[4 * i] && b[4 * i + 1] == w[4 * i + 1] && b[4 * i + 2] == w[4 * i + 2]
        && b[4 * i + 3] == w[4 * i + 3]);
}

/// The words at the front of the block.
proof fn lemma_front(ctx: CtxView, base: u32, i: int)
    requires
        0 <= i < ctx.argv.len() + ctx.envp.len(),
        ctx.argv.len() < 0x1_0000_0000,
    ensures
        ({
            let words = start_words(ctx, base);
            let argc = ctx.argv.len() as int;
            let n = argc + ctx.envp.len();
            &&& words.len() == n + 23
            &&& words[0] == argc
            &&& words[1 + argc] == 0
            &&& words[2 + n] == 0
            &&& i < argc ==> words[1 + i] == string_at(ctx, base, i)
            &&& i >= argc ==> words[2 + i] == string_at(ctx, base, i)
        }),
{
}

/// What `m` holds at `base` it holds there word by word.
proof fn lemma_placed_word(m: Seq<u8>, base: int, b: Seq<u8>, at: int)
    requires
        0 <= base,
        0 <= at,
        at + 4 <= b.len(),
        base + b.len() <= m.len(),
        m.subrange(base, base + b.len()) == b,
    ensures
        word_in(m, base + at) == word_in(b, at),
{
    let p = m.subrange(base, base + b.len());
    assert(p[at] == m[base + at] && p[at + 1] == m[base + at + 1] && p[at + 2] == m[base + at + 2]
        && p[at + 3] == m[base + at + 3]);
}

/// A program finds its arguments where its memory block begins: how many there are in the
/// first word, a pointer to each in the following ones and a null one behind them, then the
/// pointers to its environment and a null one behind them. Each points to its string, which
/// ends in a NUL.
#[verifier::rlimit(40)]
pub proof fn law_a_program_finds_its_arguments(
    ctx: CtxView,
    base: u32,
    seed: u64,
    m: Seq<u8>,
    i: int,
)
    requires
        ctx.argv.len() < 0x1_0000_0000,
        base + start_bytes(ctx, base, seed).len() <= m.len(),
        base + start_bytes(ctx, base, seed).len() <= u32::MAX,
        m.subrange(base as int, base + start_bytes(ctx, base, seed).len()) == start_bytes(
            ctx,
            base,
            seed,
        ),
        0 <= i < ctx.argv.len() + ctx.envp.len(),
        forall|k: int|
            0 <= k < (ctx.argv + ctx.envp)[i].len() ==> #[trigger] (ctx.argv + ctx.envp)[i][k] != 0,
    ensures
        ({
            let argc = ctx.argv.len() as int;
            let n = argc + ctx.envp.len();
            &&& word_in(m, base as int) == argc
            &&& word_in(m, base + 4 + 4 * argc) == 0
            &&& word_in(m, base + 8 + 4 * n) == 0
            &&& i < argc ==> points_to(m, base + 4 + 4 * i, ctx.argv[i])
            &&& i >= argc ==> points_to(m, base + 8 + 4 * i, ctx.envp[i - argc])
        }),
{
    let argc = ctx.argv.len() as int;
    let n = argc + ctx.envp.len();
    let b = start_bytes(ctx, base, seed);
    let all = ctx.argv + ctx.envp;
    lemma_front(ctx, base, i);
    lemma_block_word(ctx, base, seed, 0);
    lemma_placed_word(m, base as int, b, 0);
    lemma_block_word(ctx, base, seed, 1 + argc);
    lemma_placed_word(m, base as int, b, 4 * (1 + argc));
    lemma_block_word(ctx, base, seed, 2 + n);
    lemma_placed_word(m, base as int, b, 4 * (2 + n));
    let at = if i < argc {
        1 + i
    } else {
        2 + i
    };
    lemma_block_word(ctx, base, seed, at);
    lemma_placed_word(m, base as int, b, 4 * at);
    lemma_block(ctx, base, seed, i);
    let from = string_offset(ctx, i);
    let p = base + from;
    assert(word_in(m, base + 4 * at) == p);
    lemma_text_placed(m, base as int, b, from, all[i]);
}

/// What `m` holds at `base` it holds there string by string.
proof fn lemma_text_placed(m: Seq<u8>, base: int, b: Seq<u8>, from: int, text: Seq<u8>)
    requires
        0 <= base,
        0 <= from,
        from + text.len() < b.len(),
        base + b.len() <= m.len(),
        m.subrange(base, base + b.len()) == b,
        b.subrange(from, from + text.len()) == text,
        b[from + text.len()] == 0,
        forall|k: int| 0 <= k < text.len() ==> #[trigger] text[k] != 0,
    ensures
        ends_in_nul(m, base + from, text),
{
    let p = m.subrange(base, base + b.len());
    assert(p[from + text.len()] == m[base + from + text.len()]);
    assert(m.subrange(base + from, base + from + text.len()) =~= b.subrange(
        from,
        from + text.len(),
    )) by {
        assert forall|k: int| 0 <= k < text.len() implies #[trigger] m[base + from + k] == b[from
            + k] by {
            assert(p[from + k] == m[base + from + k]);
        }
    }
}

/// Behind the environment stand pairs of words that tell a program about the machine: pages of
/// 4096 bytes, a hundred ticks a second, user and group 0, where sixteen random bytes are, and
/// where its own path is; a pair of zeros ends them.
pub proof fn law_a_program_is_told_about_the_machine(ctx: CtxView, base: u32, seed: u64)
    requires
        ctx.argv.len() < 0x1_0000_0000,
        base + start_bytes(ctx, base, seed).len() <= u32::MAX,
    ensures
        ({
            let b = start_bytes(ctx, base, seed);
            let aux = 4 * (3 + ctx.argv.len() as int + ctx.envp.len());
            &&& word_in(b, aux) == 6 && word_in(b, aux + 4) == 4096
            &&& word_in(b, aux + 8) == 17 && word_in(b, aux + 12) == 100
            &&& word_in(b, aux + 16) == 11 && word_in(b, aux + 20) == 0
            &&& word_in(b, aux + 56) == 25 && word_in(b, aux + 60) == base + aux + 80
            &&& word_in(b, aux + 64) == 31
            &&& word_in(b, aux + 72) == 0 && word_in(b, aux + 76) == 0
        }),
{
    let n = ctx.argv.len() as int + ctx.envp.len();
    let w = start_words(ctx, base);
    lemma_aux(ctx, base);
    lemma_block_word(ctx, base, seed, 3 + n);
    lemma_block_word(ctx, base, seed, 4 + n);
    lemma_block_word(ctx, base, seed, 5 + n);
    lemma_block_word(ctx, base, seed, 6 + n);
    lemma_block_word(ctx, base, seed, 7 + n);
    lemma_block_word(ctx, base, seed, 8 + n);
    lemma_block_word(ctx, base, seed, 17 + n);
    lemma_block_word(ctx, base, seed, 18 + n);
    lemma_block_word(ctx, base, seed, 19 + n);
    lemma_block_word(ctx, base, seed, 21 + n);
    lemma_block_word(ctx, base, seed, 22 + n);
}

proof fn lemma_aux(ctx: CtxView, base: u32)
    ensures
        ({
            let n = ctx.argv.len() as int + ctx.envp.len();
            let w = start_words(ctx, base);
            &&& w.len() == n + 23
            &&& w[3 + n] == 6 && w[4 + n] == 4096 && w[5 + n] == 17 && w[6 + n] == 100
            &&& w[7 + n] == 11 && w[8 + n] == 0
            &&& w[17 + n] == 25 && w[18 + n] == (base + 4 * (n + 23)) % 0x1_0000_0000
            &&& w[19 + n] == 31 && w[21 + n] == 0 && w[22 + n] == 0
        }),
{
}

} // verus!
