//! The shape of the line that reports why a draw cannot be made, and that a line
//! tells its reason in full.

use crate::decline::spaced;
use crate::reason::{law_every_reason_has_its_own_slug, law_slugs_are_log_safe};
use crate::reason::{log_safe, stage_text, DrawReason};
use crate::text::{decimal, digit, flag, hex_digits, hexadecimal, signed_decimal};
use crate::text::{law_decimal_reads_back, law_hexadecimal_reads_back};
use vstd::prelude::*;

verus! {

/// The reason carries no value: its name says everything.
pub open spec fn is_bare(reason: DrawReason) -> bool {
    match reason {
        DrawReason::SpirvInvalid
        | DrawReason::DriverCallQuarantined
        | DrawReason::SamplerAnisotropyUnsupported
        | DrawReason::SamplerMirrorClampToEdgeUnsupported
        | DrawReason::SamplerPixelMixedFilters
        | DrawReason::SamplerPixelMipmapped
        | DrawReason::SamplerPixelAddressMode
        | DrawReason::SamplerPixelAnisotropy
        | DrawReason::SamplerUnnormalizedCompare
        | DrawReason::DualSourceBlendUnsupported
        | DrawReason::FillModeNonSolidUnsupported
        | DrawReason::DepthClampUnsupported
        | DrawReason::ConstantVertexAttribute
        | DrawReason::NoCombinedGraphicsComputeQueue
        | DrawReason::SwapchainUnavailable
        | DrawReason::SwapchainLacksTransferDst
        | DrawReason::SwapchainNoSurfaceFormat
        | DrawReason::SwapchainNoCompositeAlpha => true,
        _ => false,
    }
}

/// A character that neither ends a value nor separates it from its name.
pub open spec fn plain(c: char) -> bool {
    c != ' ' && c != '='
}

/// A name or a value: some characters, none of which sets it apart from another.
pub open spec fn is_word(text: Seq<char>) -> bool {
    &&& text.len() > 0
    &&& forall|i: int| 0 <= i < text.len() ==> plain(#[trigger] text[i])
}

/// Every field is a word named by a word.
pub open spec fn all_words(fields: Seq<(Seq<char>, Seq<char>)>) -> bool {
    forall|i: int|
        0 <= i < fields.len() ==> is_word((#[trigger] fields[i]).0) && is_word(fields[i].1)
}

proof fn lemma_digit(value: nat)
    ensures
        plain(digit(value)),
        digit(value) != '-',
{
}

proof fn lemma_decimal_is_word(value: nat)
    ensures
        is_word(decimal(value)),
        decimal(value)[0] != '-',
    decreases value,
{
    lemma_digit(value % 10);
    if value < 10 {
        lemma_digit(value);
    } else {
        lemma_decimal_is_word(value / 10);
    }
}

proof fn lemma_hex_is_word(value: nat)
    ensures
        is_word(hex_digits(value)),
    decreases value,
{
    lemma_digit(value % 16);
    if value < 16 {
        lemma_digit(value);
    } else {
        lemma_hex_is_word(value / 16);
    }
}

proof fn lemma_hexadecimal_is_word(value: nat)
    ensures
        is_word(hexadecimal(value)),
{
    reveal_strlit("0x");
    lemma_hex_is_word(value);
}

proof fn lemma_signed_is_word(value: int)
    ensures
        is_word(signed_decimal(value)),
{
    reveal_strlit("-");
    if value < 0 {
        lemma_decimal_is_word((-value) as nat);
    } else {
        lemma_decimal_is_word(value as nat);
    }
}

proof fn lemma_flag_is_word(value: bool)
    ensures
        is_word(flag(value)),
{
    lemma_decimal_is_word(
        if value {
            1
        } else {
            0
        },
    );
}

proof fn lemma_stage_is_word(fragment: bool)
    ensures
        is_word(stage_text(fragment)),
{
    reveal_strlit("fragment");
    reveal_strlit("vertex");
}

proof fn lemma_names_are_words()
    ensures
        is_word("attachment"@),
        is_word("binding"@),
        is_word("cap"@),
        is_word("clamp"@),
        is_word("color_input"@),
        is_word("color_targets"@),
        is_word("component"@),
        is_word("count"@),
        is_word("depth"@),
        is_word("descriptor_limit"@),
        is_word("dynamic_indexing"@),
        is_word("first_count"@),
        is_word("first_type"@),
        is_word("format"@),
        is_word("limit"@),
        is_word("load_action"@),
        is_word("max"@),
        is_word("memory_type_bits"@),
        is_word("min"@),
        is_word("multi_viewport"@),
        is_word("null_descriptor"@),
        is_word("occlusion_query_precise"@),
        is_word("partially_bound"@),
        is_word("queue_family"@),
        is_word("raster"@),
        is_word("rate"@),
        is_word("requested"@),
        is_word("required_descriptors"@),
        is_word("sample_count"@),
        is_word("second_count"@),
        is_word("second_type"@),
        is_word("stage"@),
        is_word("store_action"@),
        is_word("unpopulated"@),
        is_word("value"@),
{
    reveal_strlit("attachment");
    reveal_strlit("binding");
    reveal_strlit("cap");
    reveal_strlit("clamp");
    reveal_strlit("color_input");
    reveal_strlit("color_targets");
    reveal_strlit("component");
    reveal_strlit("count");
    reveal_strlit("depth");
    reveal_strlit("descriptor_limit");
    reveal_strlit("dynamic_indexing");
    reveal_strlit("first_count");
    reveal_strlit("first_type");
    reveal_strlit("format");
    reveal_strlit("limit");
    reveal_strlit("load_action");
    reveal_strlit("max");
    reveal_strlit("memory_type_bits");
    reveal_strlit("min");
    reveal_strlit("multi_viewport");
    reveal_strlit("null_descriptor");
    reveal_strlit("occlusion_query_precise");
    reveal_strlit("partially_bound");
    reveal_strlit("queue_family");
    reveal_strlit("raster");
    reveal_strlit("rate");
    reveal_strlit("requested");
    reveal_strlit("required_descriptors");
    reveal_strlit("sample_count");
    reveal_strlit("second_count");
    reveal_strlit("second_type");
    reveal_strlit("stage");
    reveal_strlit("store_action");
    reveal_strlit("unpopulated");
    reveal_strlit("value");
}

proof fn lemma_words_push(
    fields: Seq<(Seq<char>, Seq<char>)>,
    name: Seq<char>,
    value: Seq<char>,
)
    requires
        all_words(fields),
        is_word(name),
        is_word(value),
    ensures
        all_words(fields.push((name, value))),
{
    let more = fields.push((name, value));
    assert forall|i: int| 0 <= i < more.len() implies is_word((#[trigger] more[i]).0) && is_word(
        more[i].1,
    ) by {
        if i < fields.len() {
            assert(more[i] == fields[i]);
        }
    }
}

proof fn lemma_fields_are_words(reason: DrawReason, numbers: Seq<Seq<char>>)
    requires
        numbers.len() == reason.numbers_spec().len(),
        forall|k: int| 0 <= k < numbers.len() ==> is_word(#[trigger] numbers[k]),
    ensures
        all_words(reason.line_fields(numbers)),
        reason.line_fields(numbers).len() == 0 <==> is_bare(reason),
{
    lemma_names_are_words();
    let none = Seq::<(Seq<char>, Seq<char>)>::empty();
    match reason {
        DrawReason::ResidentSampledNot2d { binding } => {
            lemma_decimal_is_word(binding as nat);
            lemma_words_push(none, "binding"@, decimal(binding as nat));
        },
        DrawReason::NullSampledImageUnsupported { binding } => {
            lemma_decimal_is_word(binding as nat);
            lemma_words_push(none, "binding"@, decimal(binding as nat));
        },
        DrawReason::NullSamplerUnsupported { binding } => {
            lemma_decimal_is_word(binding as nat);
            lemma_words_push(none, "binding"@, decimal(binding as nat));
        },
        DrawReason::ViewportSlotsUnsupported { requested, limit, multi_viewport } => {
            lemma_decimal_is_word(requested as nat);
            lemma_words_push(none, "requested"@, decimal(requested as nat));
            let with_1 = none.push(("requested"@, decimal(requested as nat)));
            lemma_decimal_is_word(limit as nat);
            lemma_words_push(with_1, "limit"@, decimal(limit as nat));
            let with_2 = with_1.push(("limit"@, decimal(limit as nat)));
            lemma_flag_is_word(multi_viewport);
            lemma_words_push(with_2, "multi_viewport"@, flag(multi_viewport));
        },
        DrawReason::VisibilityCountingUnsupported { occlusion_query_precise } => {
            lemma_flag_is_word(occlusion_query_precise);
            lemma_words_push(none, "occlusion_query_precise"@, flag(occlusion_query_precise));
        },
        DrawReason::MultisampleAttachmentSampleCountMismatch { attachment, raster } => {
            lemma_decimal_is_word(attachment as nat);
            lemma_words_push(none, "attachment"@, decimal(attachment as nat));
            let with_1 = none.push(("attachment"@, decimal(attachment as nat)));
            lemma_decimal_is_word(raster as nat);
            lemma_words_push(with_1, "raster"@, decimal(raster as nat));
        },
        DrawReason::MultisampleResidentTargetMissing { sample_count } => {
            lemma_decimal_is_word(sample_count as nat);
            lemma_words_push(none, "sample_count"@, decimal(sample_count as nat));
        },
        DrawReason::MultisampleLinearTransferUnsupported { sample_count } => {
            lemma_decimal_is_word(sample_count as nat);
            lemma_words_push(none, "sample_count"@, decimal(sample_count as nat));
        },
        DrawReason::MultisampleSampleCountUnsupported { requested, limit } => {
            lemma_decimal_is_word(requested as nat);
            lemma_words_push(none, "requested"@, decimal(requested as nat));
            let with_1 = none.push(("requested"@, decimal(requested as nat)));
            lemma_decimal_is_word(limit as nat);
            lemma_words_push(with_1, "limit"@, decimal(limit as nat));
        },
        DrawReason::MultisampleStoreActionUnsupported { store_action } => {
            lemma_decimal_is_word(store_action as nat);
            lemma_words_push(none, "store_action"@, decimal(store_action as nat));
        },
        DrawReason::MultisampleLoadActionUnsupported { load_action } => {
            lemma_decimal_is_word(load_action as nat);
            lemma_words_push(none, "load_action"@, decimal(load_action as nat));
        },
        DrawReason::MultisampleResolveShapeUnsupported { color_targets, depth, color_input } => {
            lemma_decimal_is_word(color_targets as nat);
            lemma_words_push(none, "color_targets"@, decimal(color_targets as nat));
            let with_1 = none.push(("color_targets"@, decimal(color_targets as nat)));
            lemma_flag_is_word(depth);
            lemma_words_push(with_1, "depth"@, flag(depth));
            let with_2 = with_1.push(("depth"@, flag(depth)));
            lemma_flag_is_word(color_input);
            lemma_words_push(with_2, "color_input"@, flag(color_input));
        },
        DrawReason::AttachmentWideDepthClearUnsupported { format } => {
            lemma_signed_is_word(format as int);
            lemma_words_push(none, "format"@, signed_decimal(format as int));
        },
        DrawReason::SecondaryAttachmentCap { requested, cap } => {
            lemma_decimal_is_word(requested as nat);
            lemma_words_push(none, "requested"@, decimal(requested as nat));
            let with_1 = none.push(("requested"@, decimal(requested as nat)));
            lemma_decimal_is_word(cap as nat);
            lemma_words_push(with_1, "cap"@, decimal(cap as nat));
        },
        DrawReason::WideLinesUnsupported { .. } => {
            lemma_words_push(none, "requested"@, numbers[0]);
        },
        DrawReason::LineWidthOutOfRange { .. } => {
            lemma_words_push(none, "requested"@, numbers[0]);
            let with_1 = none.push(("requested"@, numbers[0]));
            lemma_words_push(with_1, "min"@, numbers[1]);
            let with_2 = with_1.push(("min"@, numbers[1]));
            lemma_words_push(with_2, "max"@, numbers[2]);
        },
        DrawReason::DepthBiasNonFinite { component, .. } => {
            lemma_decimal_is_word(component as nat);
            lemma_words_push(none, "component"@, decimal(component as nat));
            let with_1 = none.push(("component"@, decimal(component as nat)));
            lemma_words_push(with_1, "value"@, numbers[0]);
        },
        DrawReason::DepthBiasClampUnsupported { .. } => {
            lemma_words_push(none, "clamp"@, numbers[0]);
        },
        DrawReason::ColorAttachmentFormat(reason) => {
            lemma_decimal_is_word(reason.value_spec() as nat);
            lemma_words_push(none, "value"@, decimal(reason.value_spec() as nat));
        },
        DrawReason::VertexFormat(reason) => {
            lemma_decimal_is_word(reason.value_spec() as nat);
            lemma_words_push(none, "value"@, decimal(reason.value_spec() as nat));
        },
        DrawReason::InstanceRateDivisorUnsupported { step_rate } => {
            lemma_decimal_is_word(step_rate as nat);
            lemma_words_push(none, "rate"@, decimal(step_rate as nat));
        },
        DrawReason::InstanceRateDivisorOverLimit { step_rate, limit } => {
            lemma_decimal_is_word(step_rate as nat);
            lemma_words_push(none, "rate"@, decimal(step_rate as nat));
            let with_1 = none.push(("rate"@, decimal(step_rate as nat)));
            lemma_decimal_is_word(limit as nat);
            lemma_words_push(with_1, "limit"@, decimal(limit as nat));
        },
        DrawReason::DescriptorArrayUnsupported { binding, count, unpopulated, required_descriptors, descriptor_limit, partially_bound, null_descriptor, dynamic_indexing } => {
            lemma_decimal_is_word(binding as nat);
            lemma_words_push(none, "binding"@, decimal(binding as nat));
            let with_1 = none.push(("binding"@, decimal(binding as nat)));
            lemma_decimal_is_word(count as nat);
            lemma_words_push(with_1, "count"@, decimal(count as nat));
            let with_2 = with_1.push(("count"@, decimal(count as nat)));
            lemma_decimal_is_word(unpopulated as nat);
            lemma_words_push(with_2, "unpopulated"@, decimal(unpopulated as nat));
            let with_3 = with_2.push(("unpopulated"@, decimal(unpopulated as nat)));
            lemma_decimal_is_word(required_descriptors as nat);
            lemma_words_push(with_3, "required_descriptors"@, decimal(required_descriptors as nat));
            let with_4 = with_3.push(("required_descriptors"@, decimal(required_descriptors as nat)));
            lemma_decimal_is_word(descriptor_limit as nat);
            lemma_words_push(with_4, "descriptor_limit"@, decimal(descriptor_limit as nat));
            let with_5 = with_4.push(("descriptor_limit"@, decimal(descriptor_limit as nat)));
            lemma_flag_is_word(partially_bound);
            lemma_words_push(with_5, "partially_bound"@, flag(partially_bound));
            let with_6 = with_5.push(("partially_bound"@, flag(partially_bound)));
            lemma_flag_is_word(null_descriptor);
            lemma_words_push(with_6, "null_descriptor"@, flag(null_descriptor));
            let with_7 = with_6.push(("null_descriptor"@, flag(null_descriptor)));
            lemma_flag_is_word(dynamic_indexing);
            lemma_words_push(with_7, "dynamic_indexing"@, flag(dynamic_indexing));
        },
        DrawReason::DescriptorBindingConflict { binding, first_type, first_count, second_type, second_count } => {
            lemma_decimal_is_word(binding as nat);
            lemma_words_push(none, "binding"@, decimal(binding as nat));
            let with_1 = none.push(("binding"@, decimal(binding as nat)));
            lemma_decimal_is_word(first_type as nat);
            lemma_words_push(with_1, "first_type"@, decimal(first_type as nat));
            let with_2 = with_1.push(("first_type"@, decimal(first_type as nat)));
            lemma_decimal_is_word(first_count as nat);
            lemma_words_push(with_2, "first_count"@, decimal(first_count as nat));
            let with_3 = with_2.push(("first_count"@, decimal(first_count as nat)));
            lemma_decimal_is_word(second_type as nat);
            lemma_words_push(with_3, "second_type"@, decimal(second_type as nat));
            let with_4 = with_3.push(("second_type"@, decimal(second_type as nat)));
            lemma_decimal_is_word(second_count as nat);
            lemma_words_push(with_4, "second_count"@, decimal(second_count as nat));
        },
        DrawReason::NoHostVisibleMemoryForStaging { memory_type_bits } => {
            lemma_hexadecimal_is_word(memory_type_bits as nat);
            lemma_words_push(none, "memory_type_bits"@, hexadecimal(memory_type_bits as nat));
        },
        DrawReason::NoHostVisibleMemoryForReadback { memory_type_bits } => {
            lemma_hexadecimal_is_word(memory_type_bits as nat);
            lemma_words_push(none, "memory_type_bits"@, hexadecimal(memory_type_bits as nat));
        },
        DrawReason::NoHostVisibleMemoryForStats { memory_type_bits } => {
            lemma_hexadecimal_is_word(memory_type_bits as nat);
            lemma_words_push(none, "memory_type_bits"@, hexadecimal(memory_type_bits as nat));
        },
        DrawReason::NoDeviceLocalMemoryForStorageImage { memory_type_bits } => {
            lemma_hexadecimal_is_word(memory_type_bits as nat);
            lemma_words_push(none, "memory_type_bits"@, hexadecimal(memory_type_bits as nat));
        },
        DrawReason::NoDeviceLocalMemoryForSlab { memory_type_bits } => {
            lemma_hexadecimal_is_word(memory_type_bits as nat);
            lemma_words_push(none, "memory_type_bits"@, hexadecimal(memory_type_bits as nat));
        },
        DrawReason::NoDeviceLocalMemoryForMrtSecondary { memory_type_bits } => {
            lemma_hexadecimal_is_word(memory_type_bits as nat);
            lemma_words_push(none, "memory_type_bits"@, hexadecimal(memory_type_bits as nat));
        },
        DrawReason::NoDeviceLocalMemoryForDepth { memory_type_bits } => {
            lemma_hexadecimal_is_word(memory_type_bits as nat);
            lemma_words_push(none, "memory_type_bits"@, hexadecimal(memory_type_bits as nat));
        },
        DrawReason::NoDeviceLocalMemoryForGuestGather { memory_type_bits } => {
            lemma_hexadecimal_is_word(memory_type_bits as nat);
            lemma_words_push(none, "memory_type_bits"@, hexadecimal(memory_type_bits as nat));
        },
        DrawReason::QueueCannotPresent { queue_family } => {
            lemma_decimal_is_word(queue_family as nat);
            lemma_words_push(none, "queue_family"@, decimal(queue_family as nat));
        },
        DrawReason::UsedBindingAbsentFromLayout { binding, fragment } => {
            lemma_decimal_is_word(binding as nat);
            lemma_words_push(none, "binding"@, decimal(binding as nat));
            let with_1 = none.push(("binding"@, decimal(binding as nat)));
            lemma_stage_is_word(fragment);
            lemma_words_push(with_1, "stage"@, stage_text(fragment));
        },
        _ => {},
    }
}

/// Fields begin with one space and end with none.
proof fn lemma_spaced_edges(fields: Seq<(Seq<char>, Seq<char>)>)
    requires
        all_words(fields),
    ensures
        spaced(fields).len() == 0 <==> fields.len() == 0,
        fields.len() > 0 ==> {
            &&& spaced(fields).len() > 1
            &&& spaced(fields)[0] == ' '
            &&& spaced(fields)[1] != ' '
            &&& spaced(fields).last() != ' '
        },
    decreases fields.len(),
{
    if fields.len() > 0 {
        reveal_strlit(" ");
        reveal_strlit("=");
        let rest = fields.drop_last();
        let (name, value) = fields.last();
        assert(fields[fields.len() - 1] == fields.last());
        assert forall|i: int| 0 <= i < rest.len() implies is_word((#[trigger] rest[i]).0) && is_word(
            rest[i].1,
        ) by {
            assert(rest[i] == fields[i]);
        }
        lemma_spaced_edges(rest);
        let text = spaced(fields);
        assert(text == spaced(rest) + " "@ + name + "="@ + value);
        assert(plain(value[value.len() - 1]));
        assert(text.last() == value.last());
        if rest.len() == 0 {
            assert(text[0] == ' ');
            assert(plain(name[0]));
            assert(text[1] == name[0]);
        } else {
            assert(text[0] == spaced(rest)[0]);
            assert(text[1] == spaced(rest)[1]);
        }
    }
}

/// A line is `reason=`, the name of the reason, and then nothing where the reason
/// carries no value, or one or more groups of a space, a name, `=` and a value.
/// So what follows the name starts with exactly one space, and the line does not
/// end with one. `numbers` is the text of each number that the line shows: some
/// characters without a space or `=`.
pub proof fn law_a_line_is_its_slug_and_its_fields(reason: DrawReason, numbers: Seq<Seq<char>>)
    requires
        numbers.len() == reason.numbers_spec().len(),
        forall|k: int| 0 <= k < numbers.len() ==> is_word(#[trigger] numbers[k]),
    ensures
        reason.line_text(numbers) == "reason="@ + reason.slug_text() + spaced(
            reason.line_fields(numbers),
        ),
        all_words(reason.line_fields(numbers)),
        reason.line_fields(numbers).len() == 0 <==> is_bare(reason),
        spaced(reason.line_fields(numbers)).len() == 0 <==> is_bare(reason),
        !is_bare(reason) ==> {
            let tail = spaced(reason.line_fields(numbers));
            &&& tail.len() > 1
            &&& tail[0] == ' '
            &&& tail[1] != ' '
            &&& tail.last() != ' '
        },
{
    lemma_fields_are_words(reason, numbers);
    lemma_spaced_edges(reason.line_fields(numbers));
}

/// Where two lines agree, so do their names and what follows them.
proof fn lemma_names_apart(p: Seq<char>, s: Seq<char>, q: Seq<char>, t: Seq<char>)
    requires
        forall|i: int| 0 <= i < p.len() ==> #[trigger] p[i] != ' ',
        forall|i: int| 0 <= i < q.len() ==> #[trigger] q[i] != ' ',
        s.len() > 0 ==> s[0] == ' ',
        t.len() > 0 ==> t[0] == ' ',
        "reason="@ + p + s == "reason="@ + q + t,
    ensures
        p == q,
        s == t,
{
    reveal_strlit("reason=");
    let one = "reason="@ + p + s;
    let other = "reason="@ + q + t;
    assert(one.len() == 7 + p.len() + s.len());
    assert(other.len() == 7 + q.len() + t.len());
    if p.len() < q.len() {
        assert(other[7 + p.len() as int] == q[p.len() as int]);
        assert(one[7 + p.len() as int] == s[0]);
    }
    if q.len() < p.len() {
        assert(one[7 + q.len() as int] == p[q.len() as int]);
        assert(other[7 + q.len() as int] == t[0]);
    }
    assert forall|i: int| 0 <= i < p.len() implies p[i] == q[i] by {
        assert(one[7 + i] == p[i]);
        assert(other[7 + i] == q[i]);
    }
    assert(p =~= q);
    assert forall|i: int| 0 <= i < s.len() implies s[i] == t[i] by {
        assert(one[7 + p.len() + i] == s[i]);
        assert(other[7 + p.len() + i] == t[i]);
    }
    assert(s =~= t);
}

/// Fields under the same names that read alike are alike.
proof fn lemma_fields_apart(a: Seq<(Seq<char>, Seq<char>)>, b: Seq<(Seq<char>, Seq<char>)>)
    requires
        all_words(a),
        all_words(b),
        a.len() == b.len(),
        forall|i: int| 0 <= i < a.len() ==> (#[trigger] a[i]).0 == b[i].0,
        spaced(a) == spaced(b),
    ensures
        a == b,
    decreases a.len(),
{
    if a.len() > 0 {
        reveal_strlit("=");
        let (name, v) = a.last();
        let (other_name, u) = b.last();
        let rest = a.drop_last();
        let other_rest = b.drop_last();
        let at = a.len() - 1;
        assert(a[at] == a.last());
        assert(b[at] == b.last());
        let x = spaced(rest) + " "@ + name + "="@;
        let y = spaced(other_rest) + " "@ + name + "="@;
        assert(spaced(a) == x + v);
        assert(spaced(b) == y + u);
        assert(x.last() == '=');
        assert(y.last() == '=');
        assert((x + v).len() == (y + u).len());
        if v.len() < u.len() {
            let i = x.len() - 1;
            assert((x + v)[i] == '=');
            assert((y + u)[i] == u[i - y.len()]);
            assert(plain(u[i - y.len()]));
        }
        if u.len() < v.len() {
            let i = y.len() - 1;
            assert((y + u)[i] == '=');
            assert((x + v)[i] == v[i - x.len()]);
            assert(plain(v[i - x.len()]));
        }
        assert(x.len() == y.len());
        assert forall|i: int| 0 <= i < v.len() implies v[i] == u[i] by {
            assert((x + v)[x.len() + i] == v[i]);
            assert((y + u)[y.len() + i] == u[i]);
        }
        assert(v =~= u);
        assert forall|i: int| 0 <= i < spaced(rest).len() implies spaced(rest)[i] == spaced(
            other_rest,
        )[i] by {
            assert((x + v)[i] == spaced(rest)[i]);
            assert((y + u)[i] == spaced(other_rest)[i]);
        }
        assert(spaced(rest) =~= spaced(other_rest));
        assert forall|i: int| 0 <= i < rest.len() implies (#[trigger] rest[i]).0 == other_rest[i].0 by {
            assert(rest[i] == a[i]);
            assert(other_rest[i] == b[i]);
        }
        assert(all_words(rest)) by {
            assert forall|i: int| 0 <= i < rest.len() implies is_word((#[trigger] rest[i]).0)
                && is_word(rest[i].1) by {
                assert(rest[i] == a[i]);
            }
        }
        assert(all_words(other_rest)) by {
            assert forall|i: int| 0 <= i < other_rest.len() implies is_word(
                (#[trigger] other_rest[i]).0,
            ) && is_word(other_rest[i].1) by {
                assert(other_rest[i] == b[i]);
            }
        }
        lemma_fields_apart(rest, other_rest);
        assert(a =~= rest.push(a.last()));
        assert(b =~= other_rest.push(b.last()));
    } else {
        assert(a =~= b);
    }
}

proof fn lemma_decimal_apart(a: nat, b: nat)
    requires
        decimal(a) == decimal(b),
    ensures
        a == b,
{
    law_decimal_reads_back(a);
    law_decimal_reads_back(b);
}

proof fn lemma_flag_apart(a: bool, b: bool)
    requires
        flag(a) == flag(b),
    ensures
        a == b,
{
    lemma_decimal_apart(
        if a {
            1
        } else {
            0
        },
        if b {
            1
        } else {
            0
        },
    );
}

proof fn lemma_hexadecimal_apart(a: nat, b: nat)
    requires
        hexadecimal(a) == hexadecimal(b),
    ensures
        a == b,
{
    reveal_strlit("0x");
    assert(hexadecimal(a).skip(2) =~= hex_digits(a));
    assert(hexadecimal(b).skip(2) =~= hex_digits(b));
    law_hexadecimal_reads_back(a);
    law_hexadecimal_reads_back(b);
}

proof fn lemma_signed_apart(a: int, b: int)
    requires
        signed_decimal(a) == signed_decimal(b),
    ensures
        a == b,
{
    reveal_strlit("-");
    if a < 0 && b < 0 {
        assert(signed_decimal(a).skip(1) =~= decimal((-a) as nat));
        assert(signed_decimal(b).skip(1) =~= decimal((-b) as nat));
        lemma_decimal_apart((-a) as nat, (-b) as nat);
    } else if a < 0 {
        lemma_decimal_is_word(b as nat);
        assert(signed_decimal(a)[0] == '-');
    } else if b < 0 {
        lemma_decimal_is_word(a as nat);
        assert(signed_decimal(b)[0] == '-');
    } else {
        lemma_decimal_apart(a as nat, b as nat);
    }
}

proof fn lemma_stage_apart(a: bool, b: bool)
    requires
        stage_text(a) == stage_text(b),
    ensures
        a == b,
{
    reveal_strlit("fragment");
    reveal_strlit("vertex");
    assert("fragment"@.len() != "vertex"@.len());
}

/// The reason shows no number whose text is handed in, and takes its name from no
/// translation.
pub open spec fn tells_itself(reason: DrawReason) -> bool {
    reason.numbers_spec().len() == 0 && !reason.is_translation()
}


proof fn lemma_tells_resident_sampled_not2d(a: DrawReason, b: DrawReason)
    requires
        a is ResidentSampledNot2d,
        b is ResidentSampledNot2d,
        all_words(a.line_fields(seq![])),
        all_words(b.line_fields(seq![])),
        spaced(a.line_fields(seq![])) == spaced(b.line_fields(seq![])),
    ensures
        a == b,
{
    let f = a.line_fields(seq![]);
    let g = b.line_fields(seq![]);
    lemma_fields_apart(f, g);
    assert(f[0].1 == g[0].1);
    lemma_decimal_apart(a->ResidentSampledNot2d_binding as nat, b->ResidentSampledNot2d_binding as nat);
}

proof fn lemma_tells_null_sampled_image_unsupported(a: DrawReason, b: DrawReason)
    requires
        a is NullSampledImageUnsupported,
        b is NullSampledImageUnsupported,
        all_words(a.line_fields(seq![])),
        all_words(b.line_fields(seq![])),
        spaced(a.line_fields(seq![])) == spaced(b.line_fields(seq![])),
    ensures
        a == b,
{
    let f = a.line_fields(seq![]);
    let g = b.line_fields(seq![]);
    lemma_fields_apart(f, g);
    assert(f[0].1 == g[0].1);
    lemma_decimal_apart(a->NullSampledImageUnsupported_binding as nat, b->NullSampledImageUnsupported_binding as nat);
}

proof fn lemma_tells_null_sampler_unsupported(a: DrawReason, b: DrawReason)
    requires
        a is NullSamplerUnsupported,
        b is NullSamplerUnsupported,
        all_words(a.line_fields(seq![])),
        all_words(b.line_fields(seq![])),
        spaced(a.line_fields(seq![])) == spaced(b.line_fields(seq![])),
    ensures
        a == b,
{
    let f = a.line_fields(seq![]);
    let g = b.line_fields(seq![]);
    lemma_fields_apart(f, g);
    assert(f[0].1 == g[0].1);
    lemma_decimal_apart(a->NullSamplerUnsupported_binding as nat, b->NullSamplerUnsupported_binding as nat);
}

proof fn lemma_tells_viewport_slots_unsupported(a: DrawReason, b: DrawReason)
    requires
        a is ViewportSlotsUnsupported,
        b is ViewportSlotsUnsupported,
        all_words(a.line_fields(seq![])),
        all_words(b.line_fields(seq![])),
        spaced(a.line_fields(seq![])) == spaced(b.line_fields(seq![])),
    ensures
        a == b,
{
    let f = a.line_fields(seq![]);
    let g = b.line_fields(seq![]);
    lemma_fields_apart(f, g);
    assert(f[0].1 == g[0].1);
    lemma_decimal_apart(a->ViewportSlotsUnsupported_requested as nat, b->ViewportSlotsUnsupported_requested as nat);
    assert(f[1].1 == g[1].1);
    lemma_decimal_apart(a->ViewportSlotsUnsupported_limit as nat, b->ViewportSlotsUnsupported_limit as nat);
    assert(f[2].1 == g[2].1);
    lemma_flag_apart(a->ViewportSlotsUnsupported_multi_viewport, b->ViewportSlotsUnsupported_multi_viewport);
}

proof fn lemma_tells_visibility_counting_unsupported(a: DrawReason, b: DrawReason)
    requires
        a is VisibilityCountingUnsupported,
        b is VisibilityCountingUnsupported,
        all_words(a.line_fields(seq![])),
        all_words(b.line_fields(seq![])),
        spaced(a.line_fields(seq![])) == spaced(b.line_fields(seq![])),
    ensures
        a == b,
{
    let f = a.line_fields(seq![]);
    let g = b.line_fields(seq![]);
    lemma_fields_apart(f, g);
    assert(f[0].1 == g[0].1);
    lemma_flag_apart(a->VisibilityCountingUnsupported_occlusion_query_precise, b->VisibilityCountingUnsupported_occlusion_query_precise);
}

proof fn lemma_tells_multisample_attachment_sample_count_mismatch(a: DrawReason, b: DrawReason)
    requires
        a is MultisampleAttachmentSampleCountMismatch,
        b is MultisampleAttachmentSampleCountMismatch,
        all_words(a.line_fields(seq![])),
        all_words(b.line_fields(seq![])),
        spaced(a.line_fields(seq![])) == spaced(b.line_fields(seq![])),
    ensures
        a == b,
{
    let f = a.line_fields(seq![]);
    let g = b.line_fields(seq![]);
    lemma_fields_apart(f, g);
    assert(f[0].1 == g[0].1);
    lemma_decimal_apart(a->MultisampleAttachmentSampleCountMismatch_attachment as nat, b->MultisampleAttachmentSampleCountMismatch_attachment as nat);
    assert(f[1].1 == g[1].1);
    lemma_decimal_apart(a->MultisampleAttachmentSampleCountMismatch_raster as nat, b->MultisampleAttachmentSampleCountMismatch_raster as nat);
}

proof fn lemma_tells_multisample_resident_target_missing(a: DrawReason, b: DrawReason)
    requires
        a is MultisampleResidentTargetMissing,
        b is MultisampleResidentTargetMissing,
        all_words(a.line_fields(seq![])),
        all_words(b.line_fields(seq![])),
        spaced(a.line_fields(seq![])) == spaced(b.line_fields(seq![])),
    ensures
        a == b,
{
    let f = a.line_fields(seq![]);
    let g = b.line_fields(seq![]);
    lemma_fields_apart(f, g);
    assert(f[0].1 == g[0].1);
    lemma_decimal_apart(a->MultisampleResidentTargetMissing_sample_count as nat, b->MultisampleResidentTargetMissing_sample_count as nat);
}

proof fn lemma_tells_multisample_linear_transfer_unsupported(a: DrawReason, b: DrawReason)
    requires
        a is MultisampleLinearTransferUnsupported,
        b is MultisampleLinearTransferUnsupported,
        all_words(a.line_fields(seq![])),
        all_words(b.line_fields(seq![])),
        spaced(a.line_fields(seq![])) == spaced(b.line_fields(seq![])),
    ensures
        a == b,
{
    let f = a.line_fields(seq![]);
    let g = b.line_fields(seq![]);
    lemma_fields_apart(f, g);
    assert(f[0].1 == g[0].1);
    lemma_decimal_apart(a->MultisampleLinearTransferUnsupported_sample_count as nat, b->MultisampleLinearTransferUnsupported_sample_count as nat);
}

proof fn lemma_tells_multisample_sample_count_unsupported(a: DrawReason, b: DrawReason)
    requires
        a is MultisampleSampleCountUnsupported,
        b is MultisampleSampleCountUnsupported,
        all_words(a.line_fields(seq![])),
        all_words(b.line_fields(seq![])),
        spaced(a.line_fields(seq![])) == spaced(b.line_fields(seq![])),
    ensures
        a == b,
{
    let f = a.line_fields(seq![]);
    let g = b.line_fields(seq![]);
    lemma_fields_apart(f, g);
    assert(f[0].1 == g[0].1);
    lemma_decimal_apart(a->MultisampleSampleCountUnsupported_requested as nat, b->MultisampleSampleCountUnsupported_requested as nat);
    assert(f[1].1 == g[1].1);
    lemma_decimal_apart(a->MultisampleSampleCountUnsupported_limit as nat, b->MultisampleSampleCountUnsupported_limit as nat);
}

proof fn lemma_tells_multisample_store_action_unsupported(a: DrawReason, b: DrawReason)
    requires
        a is MultisampleStoreActionUnsupported,
        b is MultisampleStoreActionUnsupported,
        all_words(a.line_fields(seq![])),
        all_words(b.line_fields(seq![])),
        spaced(a.line_fields(seq![])) == spaced(b.line_fields(seq![])),
    ensures
        a == b,
{
    let f = a.line_fields(seq![]);
    let g = b.line_fields(seq![]);
    lemma_fields_apart(f, g);
    assert(f[0].1 == g[0].1);
    lemma_decimal_apart(a->MultisampleStoreActionUnsupported_store_action as nat, b->MultisampleStoreActionUnsupported_store_action as nat);
}

proof fn lemma_tells_multisample_load_action_unsupported(a: DrawReason, b: DrawReason)
    requires
        a is MultisampleLoadActionUnsupported,
        b is MultisampleLoadActionUnsupported,
        all_words(a.line_fields(seq![])),
        all_words(b.line_fields(seq![])),
        spaced(a.line_fields(seq![])) == spaced(b.line_fields(seq![])),
    ensures
        a == b,
{
    let f = a.line_fields(seq![]);
    let g = b.line_fields(seq![]);
    lemma_fields_apart(f, g);
    assert(f[0].1 == g[0].1);
    lemma_decimal_apart(a->MultisampleLoadActionUnsupported_load_action as nat, b->MultisampleLoadActionUnsupported_load_action as nat);
}

proof fn lemma_tells_multisample_resolve_shape_unsupported(a: DrawReason, b: DrawReason)
    requires
        a is MultisampleResolveShapeUnsupported,
        b is MultisampleResolveShapeUnsupported,
        all_words(a.line_fields(seq![])),
        all_words(b.line_fields(seq![])),
        spaced(a.line_fields(seq![])) == spaced(b.line_fields(seq![])),
    ensures
        a == b,
{
    let f = a.line_fields(seq![]);
    let g = b.line_fields(seq![]);
    lemma_fields_apart(f, g);
    assert(f[0].1 == g[0].1);
    lemma_decimal_apart(a->MultisampleResolveShapeUnsupported_color_targets as nat, b->MultisampleResolveShapeUnsupported_color_targets as nat);
    assert(f[1].1 == g[1].1);
    lemma_flag_apart(a->MultisampleResolveShapeUnsupported_depth, b->MultisampleResolveShapeUnsupported_depth);
    assert(f[2].1 == g[2].1);
    lemma_flag_apart(a->MultisampleResolveShapeUnsupported_color_input, b->MultisampleResolveShapeUnsupported_color_input);
}

proof fn lemma_tells_attachment_wide_depth_clear_unsupported(a: DrawReason, b: DrawReason)
    requires
        a is AttachmentWideDepthClearUnsupported,
        b is AttachmentWideDepthClearUnsupported,
        all_words(a.line_fields(seq![])),
        all_words(b.line_fields(seq![])),
        spaced(a.line_fields(seq![])) == spaced(b.line_fields(seq![])),
    ensures
        a == b,
{
    let f = a.line_fields(seq![]);
    let g = b.line_fields(seq![]);
    lemma_fields_apart(f, g);
    assert(f[0].1 == g[0].1);
    lemma_signed_apart(a->AttachmentWideDepthClearUnsupported_format as int, b->AttachmentWideDepthClearUnsupported_format as int);
}

proof fn lemma_tells_secondary_attachment_cap(a: DrawReason, b: DrawReason)
    requires
        a is SecondaryAttachmentCap,
        b is SecondaryAttachmentCap,
        all_words(a.line_fields(seq![])),
        all_words(b.line_fields(seq![])),
        spaced(a.line_fields(seq![])) == spaced(b.line_fields(seq![])),
    ensures
        a == b,
{
    let f = a.line_fields(seq![]);
    let g = b.line_fields(seq![]);
    lemma_fields_apart(f, g);
    assert(f[0].1 == g[0].1);
    lemma_decimal_apart(a->SecondaryAttachmentCap_requested as nat, b->SecondaryAttachmentCap_requested as nat);
    assert(f[1].1 == g[1].1);
    lemma_decimal_apart(a->SecondaryAttachmentCap_cap as nat, b->SecondaryAttachmentCap_cap as nat);
}

proof fn lemma_tells_instance_rate_divisor_unsupported(a: DrawReason, b: DrawReason)
    requires
        a is InstanceRateDivisorUnsupported,
        b is InstanceRateDivisorUnsupported,
        all_words(a.line_fields(seq![])),
        all_words(b.line_fields(seq![])),
        spaced(a.line_fields(seq![])) == spaced(b.line_fields(seq![])),
    ensures
        a == b,
{
    let f = a.line_fields(seq![]);
    let g = b.line_fields(seq![]);
    lemma_fields_apart(f, g);
    assert(f[0].1 == g[0].1);
    lemma_decimal_apart(a->InstanceRateDivisorUnsupported_step_rate as nat, b->InstanceRateDivisorUnsupported_step_rate as nat);
}

proof fn lemma_tells_instance_rate_divisor_over_limit(a: DrawReason, b: DrawReason)
    requires
        a is InstanceRateDivisorOverLimit,
        b is InstanceRateDivisorOverLimit,
        all_words(a.line_fields(seq![])),
        all_words(b.line_fields(seq![])),
        spaced(a.line_fields(seq![])) == spaced(b.line_fields(seq![])),
    ensures
        a == b,
{
    let f = a.line_fields(seq![]);
    let g = b.line_fields(seq![]);
    lemma_fields_apart(f, g);
    assert(f[0].1 == g[0].1);
    lemma_decimal_apart(a->InstanceRateDivisorOverLimit_step_rate as nat, b->InstanceRateDivisorOverLimit_step_rate as nat);
    assert(f[1].1 == g[1].1);
    lemma_decimal_apart(a->InstanceRateDivisorOverLimit_limit as nat, b->InstanceRateDivisorOverLimit_limit as nat);
}

proof fn lemma_tells_descriptor_array_unsupported(a: DrawReason, b: DrawReason)
    requires
        a is DescriptorArrayUnsupported,
        b is DescriptorArrayUnsupported,
        all_words(a.line_fields(seq![])),
        all_words(b.line_fields(seq![])),
        spaced(a.line_fields(seq![])) == spaced(b.line_fields(seq![])),
    ensures
        a == b,
{
    let f = a.line_fields(seq![]);
    let g = b.line_fields(seq![]);
    lemma_fields_apart(f, g);
    assert(f[0].1 == g[0].1);
    lemma_decimal_apart(a->DescriptorArrayUnsupported_binding as nat, b->DescriptorArrayUnsupported_binding as nat);
    assert(f[1].1 == g[1].1);
    lemma_decimal_apart(a->DescriptorArrayUnsupported_count as nat, b->DescriptorArrayUnsupported_count as nat);
    assert(f[2].1 == g[2].1);
    lemma_decimal_apart(a->DescriptorArrayUnsupported_unpopulated as nat, b->DescriptorArrayUnsupported_unpopulated as nat);
    assert(f[3].1 == g[3].1);
    lemma_decimal_apart(a->DescriptorArrayUnsupported_required_descriptors as nat, b->DescriptorArrayUnsupported_required_descriptors as nat);
    assert(f[4].1 == g[4].1);
    lemma_decimal_apart(a->DescriptorArrayUnsupported_descriptor_limit as nat, b->DescriptorArrayUnsupported_descriptor_limit as nat);
    assert(f[5].1 == g[5].1);
    lemma_flag_apart(a->DescriptorArrayUnsupported_partially_bound, b->DescriptorArrayUnsupported_partially_bound);
    assert(f[6].1 == g[6].1);
    lemma_flag_apart(a->DescriptorArrayUnsupported_null_descriptor, b->DescriptorArrayUnsupported_null_descriptor);
    assert(f[7].1 == g[7].1);
    lemma_flag_apart(a->DescriptorArrayUnsupported_dynamic_indexing, b->DescriptorArrayUnsupported_dynamic_indexing);
}

proof fn lemma_tells_descriptor_binding_conflict(a: DrawReason, b: DrawReason)
    requires
        a is DescriptorBindingConflict,
        b is DescriptorBindingConflict,
        all_words(a.line_fields(seq![])),
        all_words(b.line_fields(seq![])),
        spaced(a.line_fields(seq![])) == spaced(b.line_fields(seq![])),
    ensures
        a == b,
{
    let f = a.line_fields(seq![]);
    let g = b.line_fields(seq![]);
    lemma_fields_apart(f, g);
    assert(f[0].1 == g[0].1);
    lemma_decimal_apart(a->DescriptorBindingConflict_binding as nat, b->DescriptorBindingConflict_binding as nat);
    assert(f[1].1 == g[1].1);
    lemma_decimal_apart(a->DescriptorBindingConflict_first_type as nat, b->DescriptorBindingConflict_first_type as nat);
    assert(f[2].1 == g[2].1);
    lemma_decimal_apart(a->DescriptorBindingConflict_first_count as nat, b->DescriptorBindingConflict_first_count as nat);
    assert(f[3].1 == g[3].1);
    lemma_decimal_apart(a->DescriptorBindingConflict_second_type as nat, b->DescriptorBindingConflict_second_type as nat);
    assert(f[4].1 == g[4].1);
    lemma_decimal_apart(a->DescriptorBindingConflict_second_count as nat, b->DescriptorBindingConflict_second_count as nat);
}

proof fn lemma_tells_no_host_visible_memory_for_staging(a: DrawReason, b: DrawReason)
    requires
        a is NoHostVisibleMemoryForStaging,
        b is NoHostVisibleMemoryForStaging,
        all_words(a.line_fields(seq![])),
        all_words(b.line_fields(seq![])),
        spaced(a.line_fields(seq![])) == spaced(b.line_fields(seq![])),
    ensures
        a == b,
{
    let f = a.line_fields(seq![]);
    let g = b.line_fields(seq![]);
    lemma_fields_apart(f, g);
    assert(f[0].1 == g[0].1);
    lemma_hexadecimal_apart(a->NoHostVisibleMemoryForStaging_memory_type_bits as nat, b->NoHostVisibleMemoryForStaging_memory_type_bits as nat);
}

proof fn lemma_tells_no_host_visible_memory_for_readback(a: DrawReason, b: DrawReason)
    requires
        a is NoHostVisibleMemoryForReadback,
        b is NoHostVisibleMemoryForReadback,
        all_words(a.line_fields(seq![])),
        all_words(b.line_fields(seq![])),
        spaced(a.line_fields(seq![])) == spaced(b.line_fields(seq![])),
    ensures
        a == b,
{
    let f = a.line_fields(seq![]);
    let g = b.line_fields(seq![]);
    lemma_fields_apart(f, g);
    assert(f[0].1 == g[0].1);
    lemma_hexadecimal_apart(a->NoHostVisibleMemoryForReadback_memory_type_bits as nat, b->NoHostVisibleMemoryForReadback_memory_type_bits as nat);
}

proof fn lemma_tells_no_host_visible_memory_for_stats(a: DrawReason, b: DrawReason)
    requires
        a is NoHostVisibleMemoryForStats,
        b is NoHostVisibleMemoryForStats,
        all_words(a.line_fields(seq![])),
        all_words(b.line_fields(seq![])),
        spaced(a.line_fields(seq![])) == spaced(b.line_fields(seq![])),
    ensures
        a == b,
{
    let f = a.line_fields(seq![]);
    let g = b.line_fields(seq![]);
    lemma_fields_apart(f, g);
    assert(f[0].1 == g[0].1);
    lemma_hexadecimal_apart(a->NoHostVisibleMemoryForStats_memory_type_bits as nat, b->NoHostVisibleMemoryForStats_memory_type_bits as nat);
}

proof fn lemma_tells_no_device_local_memory_for_storage_image(a: DrawReason, b: DrawReason)
    requires
        a is NoDeviceLocalMemoryForStorageImage,
        b is NoDeviceLocalMemoryForStorageImage,
        all_words(a.line_fields(seq![])),
        all_words(b.line_fields(seq![])),
        spaced(a.line_fields(seq![])) == spaced(b.line_fields(seq![])),
    ensures
        a == b,
{
    let f = a.line_fields(seq![]);
    let g = b.line_fields(seq![]);
    lemma_fields_apart(f, g);
    assert(f[0].1 == g[0].1);
    lemma_hexadecimal_apart(a->NoDeviceLocalMemoryForStorageImage_memory_type_bits as nat, b->NoDeviceLocalMemoryForStorageImage_memory_type_bits as nat);
}

proof fn lemma_tells_no_device_local_memory_for_slab(a: DrawReason, b: DrawReason)
    requires
        a is NoDeviceLocalMemoryForSlab,
        b is NoDeviceLocalMemoryForSlab,
        all_words(a.line_fields(seq![])),
        all_words(b.line_fields(seq![])),
        spaced(a.line_fields(seq![])) == spaced(b.line_fields(seq![])),
    ensures
        a == b,
{
    let f = a.line_fields(seq![]);
    let g = b.line_fields(seq![]);
    lemma_fields_apart(f, g);
    assert(f[0].1 == g[0].1);
    lemma_hexadecimal_apart(a->NoDeviceLocalMemoryForSlab_memory_type_bits as nat, b->NoDeviceLocalMemoryForSlab_memory_type_bits as nat);
}

proof fn lemma_tells_no_device_local_memory_for_mrt_secondary(a: DrawReason, b: DrawReason)
    requires
        a is NoDeviceLocalMemoryForMrtSecondary,
        b is NoDeviceLocalMemoryForMrtSecondary,
        all_words(a.line_fields(seq![])),
        all_words(b.line_fields(seq![])),
        spaced(a.line_fields(seq![])) == spaced(b.line_fields(seq![])),
    ensures
        a == b,
{
    let f = a.line_fields(seq![]);
    let g = b.line_fields(seq![]);
    lemma_fields_apart(f, g);
    assert(f[0].1 == g[0].1);
    lemma_hexadecimal_apart(a->NoDeviceLocalMemoryForMrtSecondary_memory_type_bits as nat, b->NoDeviceLocalMemoryForMrtSecondary_memory_type_bits as nat);
}

proof fn lemma_tells_no_device_local_memory_for_depth(a: DrawReason, b: DrawReason)
    requires
        a is NoDeviceLocalMemoryForDepth,
        b is NoDeviceLocalMemoryForDepth,
        all_words(a.line_fields(seq![])),
        all_words(b.line_fields(seq![])),
        spaced(a.line_fields(seq![])) == spaced(b.line_fields(seq![])),
    ensures
        a == b,
{
    let f = a.line_fields(seq![]);
    let g = b.line_fields(seq![]);
    lemma_fields_apart(f, g);
    assert(f[0].1 == g[0].1);
    lemma_hexadecimal_apart(a->NoDeviceLocalMemoryForDepth_memory_type_bits as nat, b->NoDeviceLocalMemoryForDepth_memory_type_bits as nat);
}

proof fn lemma_tells_no_device_local_memory_for_guest_gather(a: DrawReason, b: DrawReason)
    requires
        a is NoDeviceLocalMemoryForGuestGather,
        b is NoDeviceLocalMemoryForGuestGather,
        all_words(a.line_fields(seq![])),
        all_words(b.line_fields(seq![])),
        spaced(a.line_fields(seq![])) == spaced(b.line_fields(seq![])),
    ensures
        a == b,
{
    let f = a.line_fields(seq![]);
    let g = b.line_fields(seq![]);
    lemma_fields_apart(f, g);
    assert(f[0].1 == g[0].1);
    lemma_hexadecimal_apart(a->NoDeviceLocalMemoryForGuestGather_memory_type_bits as nat, b->NoDeviceLocalMemoryForGuestGather_memory_type_bits as nat);
}

proof fn lemma_tells_queue_cannot_present(a: DrawReason, b: DrawReason)
    requires
        a is QueueCannotPresent,
        b is QueueCannotPresent,
        all_words(a.line_fields(seq![])),
        all_words(b.line_fields(seq![])),
        spaced(a.line_fields(seq![])) == spaced(b.line_fields(seq![])),
    ensures
        a == b,
{
    let f = a.line_fields(seq![]);
    let g = b.line_fields(seq![]);
    lemma_fields_apart(f, g);
    assert(f[0].1 == g[0].1);
    lemma_decimal_apart(a->QueueCannotPresent_queue_family as nat, b->QueueCannotPresent_queue_family as nat);
}

proof fn lemma_tells_used_binding_absent_from_layout(a: DrawReason, b: DrawReason)
    requires
        a is UsedBindingAbsentFromLayout,
        b is UsedBindingAbsentFromLayout,
        all_words(a.line_fields(seq![])),
        all_words(b.line_fields(seq![])),
        spaced(a.line_fields(seq![])) == spaced(b.line_fields(seq![])),
    ensures
        a == b,
{
    let f = a.line_fields(seq![]);
    let g = b.line_fields(seq![]);
    lemma_fields_apart(f, g);
    assert(f[0].1 == g[0].1);
    lemma_decimal_apart(a->UsedBindingAbsentFromLayout_binding as nat, b->UsedBindingAbsentFromLayout_binding as nat);
    assert(f[1].1 == g[1].1);
    lemma_stage_apart(a->UsedBindingAbsentFromLayout_fragment, b->UsedBindingAbsentFromLayout_fragment);
}

proof fn lemma_values_tell(a: DrawReason, b: DrawReason)
    requires
        tells_itself(a),
        tells_itself(b),
        a.term() == b.term(),
        all_words(a.line_fields(seq![])),
        all_words(b.line_fields(seq![])),
        spaced(a.line_fields(seq![])) == spaced(b.line_fields(seq![])),
    ensures
        a == b,
{
    match a {
        DrawReason::ResidentSampledNot2d { .. } => lemma_tells_resident_sampled_not2d(a, b),
        DrawReason::NullSampledImageUnsupported { .. } => lemma_tells_null_sampled_image_unsupported(a, b),
        DrawReason::NullSamplerUnsupported { .. } => lemma_tells_null_sampler_unsupported(a, b),
        DrawReason::ViewportSlotsUnsupported { .. } => lemma_tells_viewport_slots_unsupported(a, b),
        DrawReason::VisibilityCountingUnsupported { .. } => lemma_tells_visibility_counting_unsupported(a, b),
        DrawReason::MultisampleAttachmentSampleCountMismatch { .. } => lemma_tells_multisample_attachment_sample_count_mismatch(a, b),
        DrawReason::MultisampleResidentTargetMissing { .. } => lemma_tells_multisample_resident_target_missing(a, b),
        DrawReason::MultisampleLinearTransferUnsupported { .. } => lemma_tells_multisample_linear_transfer_unsupported(a, b),
        DrawReason::MultisampleSampleCountUnsupported { .. } => lemma_tells_multisample_sample_count_unsupported(a, b),
        DrawReason::MultisampleStoreActionUnsupported { .. } => lemma_tells_multisample_store_action_unsupported(a, b),
        DrawReason::MultisampleLoadActionUnsupported { .. } => lemma_tells_multisample_load_action_unsupported(a, b),
        DrawReason::MultisampleResolveShapeUnsupported { .. } => lemma_tells_multisample_resolve_shape_unsupported(a, b),
        DrawReason::AttachmentWideDepthClearUnsupported { .. } => lemma_tells_attachment_wide_depth_clear_unsupported(a, b),
        DrawReason::SecondaryAttachmentCap { .. } => lemma_tells_secondary_attachment_cap(a, b),
        DrawReason::InstanceRateDivisorUnsupported { .. } => lemma_tells_instance_rate_divisor_unsupported(a, b),
        DrawReason::InstanceRateDivisorOverLimit { .. } => lemma_tells_instance_rate_divisor_over_limit(a, b),
        DrawReason::DescriptorArrayUnsupported { .. } => lemma_tells_descriptor_array_unsupported(a, b),
        DrawReason::DescriptorBindingConflict { .. } => lemma_tells_descriptor_binding_conflict(a, b),
        DrawReason::NoHostVisibleMemoryForStaging { .. } => lemma_tells_no_host_visible_memory_for_staging(a, b),
        DrawReason::NoHostVisibleMemoryForReadback { .. } => lemma_tells_no_host_visible_memory_for_readback(a, b),
        DrawReason::NoHostVisibleMemoryForStats { .. } => lemma_tells_no_host_visible_memory_for_stats(a, b),
        DrawReason::NoDeviceLocalMemoryForStorageImage { .. } => lemma_tells_no_device_local_memory_for_storage_image(a, b),
        DrawReason::NoDeviceLocalMemoryForSlab { .. } => lemma_tells_no_device_local_memory_for_slab(a, b),
        DrawReason::NoDeviceLocalMemoryForMrtSecondary { .. } => lemma_tells_no_device_local_memory_for_mrt_secondary(a, b),
        DrawReason::NoDeviceLocalMemoryForDepth { .. } => lemma_tells_no_device_local_memory_for_depth(a, b),
        DrawReason::NoDeviceLocalMemoryForGuestGather { .. } => lemma_tells_no_device_local_memory_for_guest_gather(a, b),
        DrawReason::QueueCannotPresent { .. } => lemma_tells_queue_cannot_present(a, b),
        DrawReason::UsedBindingAbsentFromLayout { .. } => lemma_tells_used_binding_absent_from_layout(a, b),
        _ => {},
    }
}

/// Two reasons whose lines this crate words alone share a line only where they are
/// the same reason with the same values: no value is lost on the way into the
/// line.
pub proof fn law_a_line_tells_its_reason(a: DrawReason, b: DrawReason)
    requires
        tells_itself(a),
        tells_itself(b),
    ensures
        a.line_text(seq![]) == b.line_text(seq![]) <==> a == b,
{
    if a.line_text(seq![]) == b.line_text(seq![]) {
        law_a_line_is_its_slug_and_its_fields(a, seq![]);
        law_a_line_is_its_slug_and_its_fields(b, seq![]);
        law_slugs_are_log_safe(a);
        law_slugs_are_log_safe(b);
        assert forall|i: int| 0 <= i < a.slug_text().len() implies #[trigger] a.slug_text()[i] != ' ' by {
            assert(log_safe(a.slug_text()[i]));
        }
        assert forall|i: int| 0 <= i < b.slug_text().len() implies #[trigger] b.slug_text()[i] != ' ' by {
            assert(log_safe(b.slug_text()[i]));
        }
        lemma_names_apart(
            a.slug_text(),
            spaced(a.line_fields(seq![])),
            b.slug_text(),
            spaced(b.line_fields(seq![])),
        );
        law_every_reason_has_its_own_slug(a, b);
        lemma_values_tell(a, b);
    }
}

} // verus!
