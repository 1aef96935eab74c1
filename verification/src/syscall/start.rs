//! The block a program reads when it starts.
use super::io::{fill_random, random_bytes, seed_of, stepped};
use super::stat::nul_ended;
use crate::abi::{
    AT_CLKTCK, AT_EGID, AT_EUID, AT_EXECFN, AT_GID, AT_NULL, AT_PAGESZ, AT_RANDOM, AT_SECURE,
    AT_UID,
};
use crate::kernel::mem::{bytes32, le32, wrapped};
use crate::kernel::state::{Clock, Ctx, CtxView, Shared, SharedView};
use vstd::prelude::*;
use vstd::string::*;
use vstd::utf8::encode_utf8;

verus! {

/// How many random bytes a program starts with.
pub const SEED: usize = 16;

/// The bytes of some words, one after the other.
pub open spec fn word_bytes(words: Seq<u32>) -> Seq<u8>
    decreases words.len(),
{
    if words.len() == 0 {
        Seq::empty()
    } else {
        word_bytes(words.drop_last()) + le32(words.last())
    }
}

/// How long the words are: the count, both pointer lists with their ends, and ten pairs of the
/// auxiliary vector.
pub open spec fn header_len(ctx: CtxView) -> int {
    (ctx.argv.len() as int + ctx.envp.len() as int + 23) * 4
}

/// Where the `i`th string is, counted from the beginning of the block.
pub open spec fn string_offset(ctx: CtxView, i: int) -> int {
    header_len(ctx) + SEED + nul_ended(ctx.argv + ctx.envp, i).len()
}

/// The address of the `i`th string, in a block at `base`.
pub open spec fn string_at(ctx: CtxView, base: u32, i: int) -> u32 {
    wrapped(base, string_offset(ctx, i))
}

/// The addresses of the strings from the `from`th up to the `to`th.
pub open spec fn pointers(ctx: CtxView, base: u32, from: int, to: int) -> Seq<u32> {
    Seq::new((to - from) as nat, |i: int| string_at(ctx, base, from + i))
}

/// The auxiliary vector: what the kernel tells a program about itself.
pub open spec fn auxv(ctx: CtxView, base: u32) -> Seq<u32> {
    let n = ctx.argv.len() as int + ctx.envp.len() as int;
    seq![
        AT_PAGESZ,
        4096,
        AT_CLKTCK,
        100,
        AT_UID,
        0,
        AT_EUID,
        0,
        AT_GID,
        0,
        AT_EGID,
        0,
        AT_SECURE,
        0,
        AT_RANDOM,
        wrapped(base, header_len(ctx)),
        AT_EXECFN,
        string_at(ctx, base, n),
        AT_NULL,
        0,
    ]
}

/// The words of the block: `argc`, `argv`, `envp` and the auxiliary vector.
pub open spec fn start_words(ctx: CtxView, base: u32) -> Seq<u32> {
    let argc = ctx.argv.len() as int;
    let all = argc + ctx.envp.len() as int;
    seq![(argc % 0x1_0000_0000) as u32] + pointers(ctx, base, 0, argc) + seq![0u32] + pointers(
        ctx,
        base,
        argc,
        all,
    ) + seq![0u32] + auxv(ctx, base)
}

/// The whole block, for an address: the words, the random bytes, and the strings they point at.
pub open spec fn start_bytes(ctx: CtxView, base: u32, seed: u64) -> Seq<u8> {
    let all = ctx.argv + ctx.envp;
    word_bytes(start_words(ctx, base)) + random_bytes(seed, SEED as nat) + nul_ended(
        all,
        all.len() as int,
    ) + encode_utf8(ctx.task.exe) + seq![0u8]
}

fn push_words(out: &mut Vec<u8>, words: &Vec<u32>)
    ensures
        final(out)@ == old(out)@ + word_bytes(words@),
{
    let ghost before = out@;
    let mut i: usize = 0;
    assert(words@.subrange(0, 0) =~= Seq::empty());
    assert(out@ =~= before + word_bytes(words@.subrange(0, 0)));
    while i < words.len()
        invariant
            i <= words@.len(),
            out@ == before + word_bytes(words@.subrange(0, i as int)),
        decreases words@.len() - i,
    {
        let mut next = bytes32(words[i]);
        out.append(&mut next);
        assert(words@.subrange(0, i + 1).drop_last() =~= words@.subrange(0, i as int));
        i = i + 1;
        assert(out@ =~= before + word_bytes(words@.subrange(0, i as int)));
    }
    assert(words@.subrange(0, i as int) =~= words@);
}

/// The address `by` bytes on, wrapping round the 32-bit address space.
fn far(base: u32, by: u128) -> (r: u32)
    requires
        by <= 0xffff_ffff_ffff_ffff_ffff,
    ensures
        r == wrapped(base, by as int),
{
    ((base as u128 + by) % 0x1_0000_0000) as u32
}

/// Add the strings of one list, and their addresses.
fn add_strings(
    strings: &mut Vec<u8>,
    words: &mut Vec<u32>,
    list: &Vec<Vec<u8>>,
    header: u128,
    base: u32,
    Ghost(ctx): Ghost<CtxView>,
    Ghost(from): Ghost<int>,
)
    requires
        header == header_len(ctx),
        header <= 0xffff_ffff_ffff_ffff_fff,
        0 <= from,
        from + list@.len() <= ctx.argv.len() + ctx.envp.len(),
        forall|i: int|
            0 <= i < list@.len() ==> (ctx.argv + ctx.envp)[from + i] == (#[trigger] list@[i])@,
        old(strings)@ == nul_ended(ctx.argv + ctx.envp, from),
    ensures
        final(strings)@ == nul_ended(ctx.argv + ctx.envp, from + list@.len()),
        final(words)@ == old(words)@ + pointers(ctx, base, from, from + list@.len()),
{
    let ghost all = ctx.argv + ctx.envp;
    let ghost before = words@;
    let mut i: usize = 0;
    assert(words@ =~= before + pointers(ctx, base, from, from));
    while i < list.len()
        invariant
            i <= list@.len(),
            all == ctx.argv + ctx.envp,
            header == header_len(ctx),
            header <= 0xffff_ffff_ffff_ffff_fff,
            0 <= from,
            from + list@.len() <= all.len(),
            forall|j: int| 0 <= j < list@.len() ==> all[from + j] == (#[trigger] list@[j])@,
            strings@ == nul_ended(all, from + i),
            words@ == before + pointers(ctx, base, from, from + i),
        decreases list@.len() - i,
    {
        let off: u128 = header + SEED as u128 + strings.len() as u128;
        words.push(far(base, off));
        let ghost had = strings@;
        strings.extend_from_slice(list[i].as_slice());
        assert(strings@ =~= had + all[from + i]);
        strings.push(0);
        i = i + 1;
        assert(words@ =~= before + pointers(ctx, base, from, from + i));
    }
}

/// The block `_start` reads: `argc`, `argv`, `envp`, the auxiliary vector, and the random
/// bytes `AT_RANDOM` points at. Laid out at `base`, where the guest will put it.
pub fn start_block<F>(sh: &mut Shared<F>, ctx: &Ctx, clock: &Clock, base: u32) -> (r: Vec<u8>)
    ensures
        r@ == start_bytes(ctx@, base, seed_of(old(sh)@.random, clock.realtime)),
        final(sh)@ == (SharedView {
            random: stepped(seed_of(old(sh)@.random, clock.realtime), SEED as nat),
            ..old(sh)@
        }),
{
    let ghost c = ctx@;
    let ghost all = c.argv + c.envp;
    let argc: usize = ctx.argv.len();
    let envc: usize = ctx.envp.len();
    let header: u128 = (argc as u128 + envc as u128 + 23) * 4;
    let mut strings: Vec<u8> = Vec::new();
    let mut words: Vec<u32> = Vec::new();
    assert(strings@ =~= nul_ended(all, 0));
    words.push((argc as u64 % 0x1_0000_0000) as u32);
    assert forall|i: int| 0 <= i < ctx.argv@.len() implies all[0 + i] == (#[trigger] ctx.argv@[i])@ by {
        assert(all[i] == c.argv[i]);
    }
    add_strings(&mut strings, &mut words, &ctx.argv, header, base, Ghost(c), Ghost(0));
    words.push(0);
    assert forall|i: int| 0 <= i < ctx.envp@.len() implies all[c.argv.len() + i] == (
    #[trigger] ctx.envp@[i])@ by {
        assert(all[c.argv.len() + i] == c.envp[i]);
    }
    add_strings(
        &mut strings,
        &mut words,
        &ctx.envp,
        header,
        base,
        Ghost(c),
        Ghost(c.argv.len() as int),
    );
    words.push(0);
    let execfn: u32 = far(base, header + SEED as u128 + strings.len() as u128);
    let mut tail: Vec<u32> = vec![
        AT_PAGESZ,
        4096,
        AT_CLKTCK,
        100,
        AT_UID,
        0,
        AT_EUID,
        0,
        AT_GID,
        0,
        AT_EGID,
        0,
        AT_SECURE,
        0,
        AT_RANDOM,
        far(base, header),
        AT_EXECFN,
        execfn,
        AT_NULL,
        0,
    ];
    assert(all.len() == c.argv.len() + c.envp.len());
    assert(tail@ =~= auxv(c, base));
    words.append(&mut tail);
    assert(words@ =~= start_words(c, base));
    let mut out: Vec<u8> = Vec::new();
    push_words(&mut out, &words);
    assert(out@ =~= word_bytes(start_words(c, base)));
    let mut seed = fill_random(sh, clock, SEED);
    out.append(&mut seed);
    out.append(&mut strings);
    let mut exe = ctx.task.exe.as_str().as_bytes_vec();
    out.append(&mut exe);
    let ghost most = out@;
    out.push(0);
    assert(out@ =~= most + seq![0u8]);
    out
}

} // verus!
