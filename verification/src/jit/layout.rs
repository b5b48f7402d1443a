//! Facts about the layout of machine code: where each translation stands,
//! where each operand field lies, and that every field, once filled in,
//! leads where it should.

use crate::bytecode::Instruction;
use crate::jit::encoding::{
    body, calls_have_addresses, cell_displacement, draft, field_width, frame_slots, is_place,
    le_bytes, le_value, leaves_patch, machine_code, operand, patch_table, patched, resolvable,
    resolved, signed32, start_of, target_offset, template, translation, translation_size,
    unsigned32, unsigned64, Patch, PatchTarget, EPILOGUE_SIZE, FAULT_EXITS_SIZE,
    MAX_TRANSLATION_SIZE, PROLOGUE_SIZE,
};
use crate::jit::memory::overwritten;
use vstd::prelude::*;

verus! {

/// `le_bytes` gives as many bytes as it is asked for.
pub proof fn lemma_le_bytes_len(value: nat, width: nat)
    ensures
        le_bytes(value, width).len() == width,
    decreases width,
{
    if width > 0 {
        lemma_le_bytes_len(value / 256, (width - 1) as nat);
    }
}

/// A template has the size that `translation_size` gives, and its operand
/// field, where it has one, lies within it.
pub proof fn lemma_template_size(instruction: Instruction)
    ensures
        template(instruction).len() == translation_size(instruction),
        0 < translation_size(instruction) <= MAX_TRANSLATION_SIZE,
        operand(instruction) matches Some((position, target)) ==> position + field_width(target)
            <= translation_size(instruction),
{
    match instruction {
        Instruction::PushInt(value) => {
            lemma_le_bytes_len(unsigned64(value), 8);
        },
        Instruction::Load(offset) => {
            lemma_le_bytes_len(unsigned32(cell_displacement(offset)), 4);
        },
        Instruction::Store(offset) => {
            lemma_le_bytes_len(unsigned32(cell_displacement(offset)), 4);
        },
        _ => {},
    }
}

/// Translations start one after the other, none more than
/// `MAX_TRANSLATION_SIZE` bytes after the one before.
pub proof fn lemma_start_of_step(code: Seq<Instruction>, index: int)
    requires
        0 <= index,
    ensures
        PROLOGUE_SIZE <= start_of(code, index) <= PROLOGUE_SIZE + MAX_TRANSLATION_SIZE * index,
        start_of(code, index) < start_of(code, index + 1) <= start_of(code, index)
            + MAX_TRANSLATION_SIZE,
    decreases index,
{
    lemma_template_size(code[index]);
    if index > 0 {
        lemma_start_of_step(code, index - 1);
    }
}

/// A later instruction starts no earlier than an earlier one.
pub proof fn lemma_start_of_ordered(code: Seq<Instruction>, low: int, high: int)
    requires
        0 <= low <= high,
    ensures
        start_of(code, low) <= start_of(code, high),
    decreases high - low,
{
    if low < high {
        lemma_start_of_step(code, high - 1);
        lemma_start_of_ordered(code, low, high - 1);
    }
}

/// The field of a patch has the width that its target calls for.
pub proof fn lemma_resolved_len(code: Seq<Instruction>, natives: Map<u32, u64>, patch: Patch)
    ensures
        resolved(code, natives, patch).len() == field_width(patch.target),
{
    match patch.target {
        PatchTarget::Native(id) => {
            lemma_le_bytes_len(natives[id] as nat, 8);
        },
        target => {
            lemma_le_bytes_len(unsigned32(target_offset(code, target) - (patch.site + 4)), 4);
        },
    }
}

/// A final translation is as long as its template.
pub proof fn lemma_translation_size(code: Seq<Instruction>, natives: Map<u32, u64>, index: int)
    ensures
        translation(code, natives, index).len() == translation_size(code[index]),
{
    lemma_template_size(code[index]);
    match operand(code[index]) {
        None => {},
        Some((position, target)) => {
            lemma_resolved_len(
                code,
                natives,
                Patch { site: (start_of(code, index) + position) as usize, target },
            );
        },
    }
}

/// Drafts and bodies of the first `count` instructions end where the next
/// translation starts.
pub proof fn lemma_body_len(code: Seq<Instruction>, natives: Map<u32, u64>, count: int)
    requires
        0 <= count,
    ensures
        draft(code, count).len() == start_of(code, count) - PROLOGUE_SIZE,
        body(code, natives, count).len() == start_of(code, count) - PROLOGUE_SIZE,
    decreases count,
{
    if count > 0 {
        lemma_body_len(code, natives, count - 1);
        lemma_template_size(code[count - 1]);
        lemma_translation_size(code, natives, count - 1);
    }
}

/// Overwriting inside the middle of three parts changes the middle part only.
pub proof fn lemma_overwritten_middle(
    head: Seq<u8>,
    middle: Seq<u8>,
    tail: Seq<u8>,
    position: int,
    data: Seq<u8>,
)
    requires
        0 <= position,
        position + data.len() <= middle.len(),
    ensures
        overwritten(head + middle + tail, head.len() + position, data) == head + overwritten(
            middle,
            position,
            data,
        ) + tail,
{
    assert(overwritten(head + middle + tail, head.len() + position, data) =~= head + overwritten(
        middle,
        position,
        data,
    ) + tail);
}

/// Filling in the patches of a draft gives the body: a region that holds
/// `head`, the templates of the first `count` instructions and `tail` holds,
/// once their patches are resolved, `head`, their final translations and `tail`.
pub proof fn lemma_patched_draft(
    head: Seq<u8>,
    tail: Seq<u8>,
    code: Seq<Instruction>,
    natives: Map<u32, u64>,
    count: int,
)
    requires
        head.len() == PROLOGUE_SIZE,
        0 <= count,
        start_of(code, count) <= usize::MAX,
    ensures
        patched(head + draft(code, count) + tail, code, natives, patch_table(code, count)) == head
            + body(code, natives, count) + tail,
    decreases count,
{
    if count > 0 {
        let last = code[count - 1];
        let start = start_of(code, count - 1);
        lemma_start_of_step(code, count - 1);
        lemma_template_size(last);
        lemma_body_len(code, natives, count - 1);
        lemma_patched_draft(head, template(last) + tail, code, natives, count - 1);
        let region = head + draft(code, count) + tail;
        assert(region =~= head + draft(code, count - 1) + (template(last) + tail));
        let filled = head + body(code, natives, count - 1) + (template(last) + tail);
        assert(filled =~= (head + body(code, natives, count - 1)) + template(last) + tail);
        match operand(last) {
            None => {
                assert(head + body(code, natives, count) + tail =~= filled);
            },
            Some((position, target)) => {
                let patch = Patch { site: (start + position) as usize, target };
                let before = patch_table(code, count - 1);
                assert(before.push(patch).drop_last() =~= before);
                lemma_resolved_len(code, natives, patch);
                lemma_overwritten_middle(
                    head + body(code, natives, count - 1),
                    template(last),
                    tail,
                    position as int,
                    resolved(code, natives, patch),
                );
                assert(head + body(code, natives, count) + tail =~= (head + body(
                    code,
                    natives,
                    count - 1,
                )) + translation(code, natives, count - 1) + tail);
            },
        }
    } else {
        assert(patch_table(code, count).len() == 0);
    }
}

/// Every patch of the first `count` instructions has its whole field before
/// the next translation, and one of these instructions left it behind.
pub proof fn lemma_patch_table_sites(code: Seq<Instruction>, count: int, j: int)
    requires
        0 <= count,
        0 <= j < patch_table(code, count).len(),
        start_of(code, count) <= usize::MAX,
    ensures
        PROLOGUE_SIZE <= patch_table(code, count)[j].site,
        patch_table(code, count)[j].site + field_width(patch_table(code, count)[j].target)
            <= start_of(code, count),
        exists|i: int|
            0 <= i < count && #[trigger] leaves_patch(code[i], patch_table(code, count)[j].target),
    decreases count,
{
    if count > 0 {
        lemma_start_of_step(code, count - 1);
        lemma_template_size(code[count - 1]);
        let before = patch_table(code, count - 1);
        if j < before.len() {
            lemma_patch_table_sites(code, count - 1, j);
            let i = choose|i: int|
                0 <= i < count - 1 && #[trigger] leaves_patch(code[i], before[j].target);
            assert(leaves_patch(code[i], patch_table(code, count)[j].target));
        } else {
            assert(leaves_patch(code[count - 1], patch_table(code, count)[j].target));
        }
    }
}

/// Every instruction among the first `count` that has an operand field left
/// a patch to its target in the table.
pub proof fn lemma_patch_table_complete(code: Seq<Instruction>, count: int, i: int)
    requires
        0 <= i < count,
        operand(code[i]) is Some,
    ensures
        exists|j: int|
            0 <= j < patch_table(code, count).len() && leaves_patch(
                code[i],
                #[trigger] patch_table(code, count)[j].target,
            ),
    decreases count,
{
    let table = patch_table(code, count);
    let before = patch_table(code, count - 1);
    if i < count - 1 {
        lemma_patch_table_complete(code, count - 1, i);
        let j = choose|j: int|
            0 <= j < before.len() && leaves_patch(code[i], #[trigger] before[j].target);
        assert(table[j] == before[j]);
    } else {
        assert(table[table.len() - 1].target == operand(code[i]).unwrap().1);
    }
}

/// The patches of a program can all be resolved exactly when each of its
/// native calls names a function that has an address.
pub proof fn lemma_resolvable_calls(code: Seq<Instruction>, natives: Map<u32, u64>)
    requires
        start_of(code, code.len() as int) <= usize::MAX,
    ensures
        resolvable(code, natives) <==> calls_have_addresses(code, natives),
{
    let count = code.len() as int;
    let table = patch_table(code, count);
    if calls_have_addresses(code, natives) {
        assert forall|j: int| 0 <= j < table.len() implies (#[trigger] table[j].target matches PatchTarget::Native(
            id,
        ) ==> natives.dom().contains(id)) by {
            lemma_patch_table_sites(code, count, j);
            let i = choose|i: int| 0 <= i < count && #[trigger] leaves_patch(code[i], table[j].target);
            assert(code[i] is CallNative ==> natives.dom().contains(code[i]->CallNative_0));
        }
    }
    if resolvable(code, natives) {
        assert forall|i: int| 0 <= i < code.len() implies (#[trigger] code[i] matches Instruction::CallNative(
            id,
        ) ==> natives.dom().contains(id)) by {
            if code[i] is CallNative {
                lemma_patch_table_complete(code, count, i);
                let j = choose|j: int|
                    0 <= j < table.len() && leaves_patch(code[i], #[trigger] table[j].target);
                assert(table[j].target == PatchTarget::Native(code[i]->CallNative_0));
            }
        }
    }
}

/// The machine code of a program ends `EPILOGUE_SIZE + FAULT_EXITS_SIZE`
/// bytes after its last translation, at most `MAX_TRANSLATION_SIZE` bytes an
/// instruction after the prologue.
pub proof fn lemma_machine_code_len(
    code: Seq<Instruction>,
    memory_size: usize,
    natives: Map<u32, u64>,
)
    ensures
        machine_code(code, memory_size, natives).len() == start_of(code, code.len() as int)
            + EPILOGUE_SIZE + FAULT_EXITS_SIZE,
        machine_code(code, memory_size, natives).len() <= PROLOGUE_SIZE + MAX_TRANSLATION_SIZE
            * code.len() + EPILOGUE_SIZE + FAULT_EXITS_SIZE,
{
    lemma_le_bytes_len(frame_slots(memory_size), 4);
    lemma_body_len(code, natives, code.len() as int);
    lemma_start_of_step(code, code.len() as int);
}

/// The bytes of a number that fits in `width` bytes write that number.
pub proof fn lemma_le_value_of_le_bytes(value: nat, width: nat)
    ensures
        le_bytes(value, width).len() == width,
        width == 4 && value < 0x1_0000_0000 ==> le_value(le_bytes(value, width)) == value,
        width == 8 && value < 0x1_0000_0000_0000_0000 ==> le_value(le_bytes(value, width))
            == value,
{
    lemma_le_bytes_len(value, width);
    assert(radix_power(4) == 0x1_0000_0000 && radix_power(8) == 0x1_0000_0000_0000_0000) by {
        reveal_with_fuel(radix_power, 9);
    }
    if width == 4 && value < 0x1_0000_0000 {
        lemma_le_value_small(value, 4, 0x1_0000_0000);
    }
    if width == 8 && value < 0x1_0000_0000_0000_0000 {
        lemma_le_value_small(value, 8, 0x1_0000_0000_0000_0000);
    }
}

/// The bytes of a number are its lowest byte and the bytes of the rest.
proof fn lemma_le_byte_by_byte(value: nat, width: nat)
    requires
        width > 0,
    ensures
        le_bytes(value, width)[0] == (value % 256) as u8,
        le_bytes(value, width).drop_first() == le_bytes(value / 256, (width - 1) as nat),
{
    assert(le_bytes(value, width).drop_first() =~= le_bytes(value / 256, (width - 1) as nat));
}

/// 256 to the power of `width`.
spec fn radix_power(width: nat) -> nat
    decreases width,
{
    if width == 0 {
        1
    } else {
        256 * radix_power((width - 1) as nat)
    }
}

/// The bytes of a number below 256 to the power of `width` write that number.
proof fn lemma_le_value_small(value: nat, width: nat, bound: nat)
    requires
        bound == radix_power(width),
        value < bound,
    ensures
        le_value(le_bytes(value, width)) == value,
    decreases width,
{
    if width > 0 {
        lemma_le_byte_by_byte(value, width);
        lemma_le_value_small(value / 256, (width - 1) as nat, radix_power((width - 1) as nat));
    }
}

/// A signed 32-bit number comes back from its unsigned form.
pub proof fn lemma_signed32_of_unsigned32(value: int)
    requires
        -0x8000_0000 <= value < 0x8000_0000,
    ensures
        unsigned32(value) < 0x1_0000_0000,
        signed32(unsigned32(value)) == value,
{
}

/// The translation of every instruction stands in the machine code where
/// `start_of` says: from its own start to the start of the next.
pub proof fn lemma_translation_in_place(
    code: Seq<Instruction>,
    memory_size: usize,
    natives: Map<u32, u64>,
    index: int,
)
    requires
        0 <= index < code.len(),
    ensures
        start_of(code, index + 1) <= machine_code(code, memory_size, natives).len(),
        machine_code(code, memory_size, natives).subrange(
            start_of(code, index),
            start_of(code, index + 1),
        ) == translation(code, natives, index),
{
    let count = code.len() as int;
    lemma_le_bytes_len(frame_slots(memory_size), 4);
    lemma_body_len(code, natives, count);
    lemma_body_len(code, natives, index);
    lemma_start_of_step(code, index);
    lemma_start_of_ordered(code, index + 1, count);
    lemma_translation_in_body(code, natives, count, index);
    let image = machine_code(code, memory_size, natives);
    let inner = body(code, natives, count);
    assert(image.subrange(start_of(code, index), start_of(code, index + 1)) =~= inner.subrange(
        start_of(code, index) - PROLOGUE_SIZE,
        start_of(code, index + 1) - PROLOGUE_SIZE,
    ));
}

/// The translation of instruction `index` stands in the body of the first
/// `count` instructions between its start and the start of the next.
proof fn lemma_translation_in_body(
    code: Seq<Instruction>,
    natives: Map<u32, u64>,
    count: int,
    index: int,
)
    requires
        0 <= index < count,
    ensures
        body(code, natives, count).subrange(
            start_of(code, index) - PROLOGUE_SIZE,
            start_of(code, index + 1) - PROLOGUE_SIZE,
        ) == translation(code, natives, index),
    decreases count,
{
    lemma_body_len(code, natives, count - 1);
    lemma_body_len(code, natives, count);
    lemma_translation_size(code, natives, count - 1);
    lemma_start_of_step(code, index);
    let before = body(code, natives, count - 1);
    let whole = body(code, natives, count);
    if index < count - 1 {
        lemma_translation_in_body(code, natives, count - 1, index);
        lemma_start_of_ordered(code, index + 1, count - 1);
        assert(whole.subrange(
            start_of(code, index) - PROLOGUE_SIZE,
            start_of(code, index + 1) - PROLOGUE_SIZE,
        ) =~= before.subrange(
            start_of(code, index) - PROLOGUE_SIZE,
            start_of(code, index + 1) - PROLOGUE_SIZE,
        ));
    } else {
        assert(whole.subrange(
            start_of(code, index) - PROLOGUE_SIZE,
            start_of(code, index + 1) - PROLOGUE_SIZE,
        ) =~= translation(code, natives, index));
    }
}

/// Where the machine code of a program fits in 2^31 - 1 bytes, every
/// displacement leads to its target: the field of a jump, read as a signed
/// number and added to the offset at which the field ends, gives the offset
/// at which the translation of the target starts, and the fields of a
/// division and of a register push give the offsets of their fault exits.
pub proof fn lemma_displacement_reaches_target(
    code: Seq<Instruction>,
    memory_size: usize,
    natives: Map<u32, u64>,
    index: int,
)
    requires
        0 <= index < code.len(),
        machine_code(code, memory_size, natives).len() < 0x8000_0000,
        operand(code[index]) is Some,
        is_place(code, operand(code[index])->Some_0.1),
    ensures
        ({
            let position = operand(code[index])->Some_0.0;
            let target = operand(code[index])->Some_0.1;
            let site = start_of(code, index) + position;
            let field = machine_code(code, memory_size, natives).subrange(site, site + 4);
            &&& site + 4 <= machine_code(code, memory_size, natives).len()
            &&& site + 4 + signed32(le_value(field)) == target_offset(code, target)
            &&& 0 <= target_offset(code, target) < machine_code(code, memory_size, natives).len()
        }),
{
    let position = operand(code[index])->Some_0.0;
    let target = operand(code[index])->Some_0.1;
    let start = start_of(code, index);
    let site = start + position;
    let image = machine_code(code, memory_size, natives);
    lemma_machine_code_len(code, memory_size, natives);
    lemma_translation_in_place(code, memory_size, natives, index);
    lemma_template_size(code[index]);
    lemma_start_of_step(code, index);
    lemma_start_of_step(code, code.len() as int);
    lemma_start_of_ordered(code, index + 1, code.len() as int);
    if target is Instruction {
        lemma_start_of_step(code, target->Instruction_0 as int);
        lemma_start_of_ordered(code, target->Instruction_0 as int + 1, code.len() as int);
    }
    let patch = Patch { site: site as usize, target };
    let displacement = target_offset(code, target) - (site + 4);
    lemma_resolved_len(code, natives, patch);
    lemma_signed32_of_unsigned32(displacement);
    lemma_le_value_of_le_bytes(unsigned32(displacement), 4);
    let whole = translation(code, natives, index);
    let at = position as int;
    assert(whole.subrange(at, at + 4) =~= resolved(code, natives, patch));
    assert(image.subrange(site, site + 4) =~= whole.subrange(at, at + 4));
}

/// The field of every native call holds the address of its function.
pub proof fn lemma_call_holds_address(
    code: Seq<Instruction>,
    memory_size: usize,
    natives: Map<u32, u64>,
    index: int,
)
    requires
        0 <= index < code.len(),
        code[index] is CallNative,
    ensures
        ({
            let position = operand(code[index])->Some_0.0;
            let site = start_of(code, index) + position;
            let field = machine_code(code, memory_size, natives).subrange(site, site + 8);
            &&& site + 8 <= machine_code(code, memory_size, natives).len()
            &&& le_value(field) == natives[code[index]->CallNative_0]
        }),
{
    let id = code[index]->CallNative_0;
    let position = operand(code[index])->Some_0.0;
    let site = start_of(code, index) + position;
    let image = machine_code(code, memory_size, natives);
    lemma_translation_in_place(code, memory_size, natives, index);
    lemma_template_size(code[index]);
    lemma_start_of_step(code, index);
    let patch = Patch { site: site as usize, target: PatchTarget::Native(id) };
    lemma_resolved_len(code, natives, patch);
    lemma_le_value_of_le_bytes(natives[id] as nat, 8);
    let whole = translation(code, natives, index);
    let at = position as int;
    assert(whole.subrange(at, at + 8) =~= resolved(code, natives, patch));
    assert(image.subrange(site, site + 8) =~= whole.subrange(at, at + 8));
}

/// The fields that patches fill lie one after the other: each ends before
/// the next begins, so no patch undoes another.
pub proof fn lemma_patch_sites_ascend(code: Seq<Instruction>, count: int, j: int, k: int)
    requires
        0 <= count,
        0 <= j < k < patch_table(code, count).len(),
        start_of(code, count) <= usize::MAX,
    ensures
        patch_table(code, count)[j].site + field_width(patch_table(code, count)[j].target)
            <= patch_table(code, count)[k].site,
    decreases count,
{
    if count > 0 {
        lemma_start_of_step(code, count - 1);
        let before = patch_table(code, count - 1);
        if k < before.len() {
            lemma_patch_sites_ascend(code, count - 1, j, k);
        } else {
            lemma_patch_table_sites(code, count - 1, j);
        }
    }
}

} // verus!
