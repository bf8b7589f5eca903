//! The raw binary output: resolving the references of a section, and the
//! image, the listing and the symbol table that are written for it.

use crate::ast::{Location, Modifier, Visibility};
use crate::error::{AssemblerError, AssemblerErrorView};
use crate::generation::{join, Listing};
use crate::section::{
    label_offset_in, MEMORY_SIZE, ReferenceView, Section, SectionLabelView, SectionView,
};
use crate::semantics::{joined, ListingView};
use crate::text::{
    ascii_string, ascii_text, copy_range, decimal_bytes, hex_bytes, is_ascii_bytes,
    lemma_ascii_text_concat, lemma_decimal_bytes_ascii, lemma_hex_bytes_ascii, push_decimal,
    push_hex, push_signed_decimal, signed_decimal_bytes,
};
use vstd::prelude::*;
use vstd::string::StringExecFns;

verus! {

/// How far a branch jumps: from the byte after its operand to its target.
pub open spec fn displacement(target: int, offset: int) -> int {
    target - (offset + 1)
}

/// A branch reaches 128 bytes back and 127 bytes forward.
pub open spec fn in_branch_range(distance: int) -> bool {
    -128 <= distance <= 127
}

/// The byte that holds a displacement in two's complement.
pub open spec fn signed_byte(distance: int) -> u8 {
    if distance >= 0 {
        distance as u8
    } else {
        (256 + distance) as u8
    }
}

pub open spec fn low_byte(address: int) -> u8 {
    (address % 256) as u8
}

pub open spec fn high_byte(address: int) -> u8 {
    ((address / 256) % 256) as u8
}

/// The error for a reference to a label that no line defines.
pub open spec fn missing_label_error(reference: ReferenceView) -> AssemblerErrorView {
    AssemblerErrorView {
        message: "Label `"@ + reference.name + "` being referenced does not exist"@,
        labels: seq![(reference.location, None)],
        help: None,
    }
}

/// The error for a branch whose target is out of its reach.
pub open spec fn out_of_range_error(reference: ReferenceView, distance: int) -> AssemblerErrorView {
    AssemblerErrorView {
        message: "The relative target is out of range, at `"@ + ascii_text(
            signed_decimal_bytes(distance),
        ) + "` bytes"@,
        labels: seq![(reference.location, None)],
        help: None,
    }
}

/// What resolving one reference makes of the memory, and the error that it
/// gives instead. A branch gets its displacement; any other reference gets
/// the address of the label, or the byte of it that its modifier takes.
pub open spec fn resolve_reference(
    data: Seq<u8>,
    labels: Seq<SectionLabelView>,
    reference: ReferenceView,
) -> (Seq<u8>, Option<AssemblerErrorView>) {
    let at = reference.offset as int;
    match label_offset_in(labels, reference.name) {
        None => (data, Some(missing_label_error(reference))),
        Some(target) => if reference.branch {
            let distance = displacement(target as int, at);
            if in_branch_range(distance) {
                (data.update(at, signed_byte(distance)), None)
            } else {
                (data, Some(out_of_range_error(reference, distance)))
            }
        } else {
            match reference.modifier {
                None => (
                    data.update(at, low_byte(target as int)).update(
                        at + 1,
                        high_byte(target as int),
                    ),
                    None,
                ),
                Some(modifier) => match modifier.val {
                    Modifier::HighByte => (data.update(at, high_byte(target as int)), None),
                    Modifier::LowByte => (data.update(at, low_byte(target as int)), None),
                },
            }
        },
    }
}

/// What resolving references in their order makes of the memory, and the
/// errors that it gives, in that order.
pub open spec fn resolve_all(
    data: Seq<u8>,
    labels: Seq<SectionLabelView>,
    references: Seq<ReferenceView>,
) -> (Seq<u8>, Seq<AssemblerErrorView>)
    decreases references.len(),
{
    if references.len() == 0 {
        (data, Seq::empty())
    } else {
        let before = resolve_all(data, labels, references.drop_last());
        let step = resolve_reference(before.0, labels, references.last());
        (
            step.0,
            match step.1 {
                Some(error) => before.1.push(error),
                None => before.1,
            },
        )
    }
}

/// A branch is resolved exactly when its target lies from 128 bytes before
/// to 127 bytes after the byte that follows its operand; it is then patched
/// with that distance, and is an error otherwise.
pub proof fn lemma_branch_reach(
    data: Seq<u8>,
    labels: Seq<SectionLabelView>,
    reference: ReferenceView,
    target: usize,
)
    requires
        reference.branch,
        label_offset_in(labels, reference.name) == Some(target),
    ensures
        resolve_reference(data, labels, reference).1 is None <==> -128 <= target - (
        reference.offset + 1) <= 127,
        target - (reference.offset + 1) == 127 ==> resolve_reference(data, labels, reference).0
            == data.update(reference.offset as int, 127u8),
        target - (reference.offset + 1) == -128 ==> resolve_reference(data, labels, reference).0
            == data.update(reference.offset as int, 128u8),
        target - (reference.offset + 1) == 128 || target - (reference.offset + 1) == -129
            ==> resolve_reference(data, labels, reference) == (
            data,
            Some(out_of_range_error(reference, target - (reference.offset + 1))),
        ),
{
}

/// Resolving a reference changes no byte but those that it reserves.
pub proof fn lemma_resolve_keeps_other_bytes(
    data: Seq<u8>,
    labels: Seq<SectionLabelView>,
    reference: ReferenceView,
    address: int,
)
    requires
        data.len() == MEMORY_SIZE,
        reference.fits(),
        0 <= address < data.len(),
        !(reference.offset <= address < reference.offset + reference.width()),
    ensures
        resolve_reference(data, labels, reference).0.len() == data.len(),
        resolve_reference(data, labels, reference).0[address] == data[address],
{
}

fn missing_label(name: &String, location: &Location) -> (error: AssemblerError)
    ensures
        error.deep_view() == (AssemblerErrorView {
            message: "Label `"@ + name@ + "` being referenced does not exist"@,
            labels: seq![(location.deep_view(), None)],
            help: None,
        }),
{
    let mut message = String::from_str("Label `");
    message.append(name.as_str());
    message.append("` being referenced does not exist");
    AssemblerError::located(message, location, None, None)
}

fn out_of_range(distance: i64, location: &Location) -> (error: AssemblerError)
    requires
        -0x1_0000_0000 < distance < 0x1_0000_0000,
    ensures
        error.deep_view() == (AssemblerErrorView {
            message: "The relative target is out of range, at `"@ + ascii_text(
                signed_decimal_bytes(distance as int),
            ) + "` bytes"@,
            labels: seq![(location.deep_view(), None)],
            help: None,
        }),
{
    let mut digits: Vec<u8> = Vec::new();
    push_signed_decimal(&mut digits, distance);
    proof {
        let magnitude = if distance < 0 {
            (-distance) as nat
        } else {
            distance as nat
        };
        lemma_decimal_bytes_ascii(magnitude);
        lemma_ascii_text_concat(seq![0x2du8], decimal_bytes(magnitude));
        assert(is_ascii_bytes(seq![0x2du8]));
        assert(digits@ =~= signed_decimal_bytes(distance as int));
    }
    let number = ascii_string(digits.as_slice());
    let mut message = String::from_str("The relative target is out of range, at `");
    message.append(number.as_str());
    message.append("` bytes");
    AssemblerError::located(message, location, None, None)
}

/// Resolve each reference of the section to its label and patch the memory.
/// The references that cannot be resolved are the errors; the others are
/// patched all the same.
pub fn resolve_references(section: &mut Section) -> (result: Result<(), Vec<AssemblerError>>)
    requires
        old(section).wf(),
    ensures
        final(section).wf(),
        old(section).tight() ==> final(section).tight(),
        final(section).deep_view() == (SectionView {
            data: resolve_all(
                old(section).data@,
                old(section).labels.deep_view(),
                old(section).references.deep_view(),
            ).0,
            ..old(section).deep_view()
        }),
        match result {
            Ok(_) => resolve_all(
                old(section).data@,
                old(section).labels.deep_view(),
                old(section).references.deep_view(),
            ).1.len() == 0,
            Err(errors) => errors.len() > 0 && errors.deep_view() == resolve_all(
                old(section).data@,
                old(section).labels.deep_view(),
                old(section).references.deep_view(),
            ).1,
        },
{
    let mut errors: Vec<AssemblerError> = Vec::new();
    let ghost labels = section.labels.deep_view();
    let ghost references = section.references.deep_view();
    let ghost start = section.data@;
    let mut i: usize = 0;
    assert(references.subrange(0, 0) =~= Seq::empty());
    assert(errors.deep_view() =~= Seq::empty());
    assert(section.deep_view().wf());
    assert forall|k: int| 0 <= k < references.len() implies (#[trigger] references[k]).fits() by {
        assert(section.deep_view().references[k].fits());
    }
    assert forall|k: int| 0 <= k < labels.len() implies (#[trigger] labels[k]).offset
        <= MEMORY_SIZE by {
        assert(section.deep_view().labels[k].offset <= MEMORY_SIZE);
    }
    let ghost was_tight = section.tight();
    let ghost low = section.deep_view().image_start();
    let ghost high = section.highest_origin as int;
    assert(was_tight ==> forall|k: int|
        0 <= k < references.len() ==> low <= (#[trigger] references[k]).offset && references[k].offset
            + references[k].width() <= high) by {
        if was_tight {
            assert forall|k: int| 0 <= k < references.len() implies low <= (
            #[trigger] references[k]).offset && references[k].offset + references[k].width()
                <= high by {
                assert(section.deep_view().references[k].offset + section.deep_view().references[k].width()
                    <= high);
            }
        }
    }
    while i < section.references.len()
        invariant
            i <= section.references.len(),
            section.data@.len() == MEMORY_SIZE,
            was_tight == old(section).tight(),
            low == old(section).deep_view().image_start(),
            high == old(section).highest_origin,
            was_tight ==> forall|k: int|
                0 <= k < references.len() ==> low <= (#[trigger] references[k]).offset
                    && references[k].offset + references[k].width() <= high,
            was_tight ==> forall|address: int|
                0 <= address < MEMORY_SIZE && !(low <= address < high)
                    ==> #[trigger] section.data@[address] == 0,
            forall|k: int| 0 <= k < references.len() ==> (#[trigger] references[k]).fits(),
            forall|k: int| 0 <= k < labels.len() ==> (#[trigger] labels[k]).offset <= MEMORY_SIZE,
            section.labels.deep_view() == labels,
            section.references.deep_view() == references,
            section.deep_view() == (SectionView { data: section.data@, ..old(section).deep_view() }),
            section.data@ == resolve_all(start, labels, references.subrange(0, i as int)).0,
            errors.deep_view() == resolve_all(start, labels, references.subrange(0, i as int)).1,
        decreases section.references.len() - i,
    {
        let ghost done = references.subrange(0, i as int);
        let ghost next = references.subrange(0, i + 1);
        let ghost reference = references[i as int];
        assert(next.drop_last() =~= done);
        assert(next.last() == reference);
        assert(reference == section.references[i as int].deep_view());
        assert(reference.fits());
        assert(was_tight ==> low <= reference.offset && reference.offset + reference.width()
            <= high);
        let ghost before_errors = errors.deep_view();
        let at = section.references[i].offset;
        let branch = section.references[i].branch;
        let found = section.find_label(&section.references[i].name);
        match found {
            None => {
                let error = missing_label(
                    &section.references[i].name,
                    &section.references[i].location,
                );
                errors.push(error);
                assert(errors.deep_view() =~= before_errors.push(missing_label_error(reference)));
            },
            Some(target) => {
                assert(target <= MEMORY_SIZE) by {
                    lemma_label_offset_bound(labels, reference.name);
                }
                if branch {
                    let distance: i64 = target as i64 - (at as i64 + 1);
                    if distance < -128 || distance > 127 {
                        let error = out_of_range(distance, &section.references[i].location);
                        errors.push(error);
                        assert(errors.deep_view() =~= before_errors.push(
                            out_of_range_error(reference, distance as int),
                        ));
                    } else {
                        let byte: u8 = if distance >= 0 {
                            distance as u8
                        } else {
                            (256 + distance) as u8
                        };
                        section.data[at] = byte;
                    }
                } else {
                    let low: u8 = (target % 256) as u8;
                    let high: u8 = ((target / 256) % 256) as u8;
                    match &section.references[i].modifier {
                        None => {
                            section.data[at] = low;
                            section.data[at + 1] = high;
                        },
                        Some(modifier) => {
                            match modifier.val {
                                Modifier::HighByte => {
                                    section.data[at] = high;
                                },
                                Modifier::LowByte => {
                                    section.data[at] = low;
                                },
                            }
                        },
                    }
                }
            },
        }
        i += 1;
    }
    assert(references.subrange(0, i as int) =~= references);
    assert(section.wf()) by {
        assert(old(section).deep_view().wf());
    }
    assert(was_tight ==> section.tight()) by {
        if was_tight {
            assert(old(section).deep_view().tight());
            assert forall|k: int| 0 <= k < section.deep_view().references.len() implies low <= (
            #[trigger] section.deep_view().references[k]).offset
                && section.deep_view().references[k].offset
                + section.deep_view().references[k].width() <= high by {
                assert(references[k].offset + references[k].width() <= high);
            }
        }
    }
    if errors.len() > 0 {
        Err(errors)
    } else {
        Ok(())
    }
}

/// A label that is found lies where one of the labels lies.
pub proof fn lemma_label_offset_bound(labels: Seq<SectionLabelView>, name: Seq<char>)
    requires
        forall|i: int| 0 <= i < labels.len() ==> (#[trigger] labels[i]).offset <= MEMORY_SIZE,
    ensures
        match label_offset_in(labels, name) {
            Some(offset) => offset <= MEMORY_SIZE,
            None => true,
        },
    decreases labels.len(),
{
    if labels.len() > 0 && labels.last().name != name {
        lemma_label_offset_bound(labels.drop_last(), name);
    }
}

/// Resolves the references of the section and gives its binary image: the
/// memory from the lowest origin up to the highest.
pub fn emit_binary(section: &mut Section) -> (result: Result<Vec<u8>, Vec<AssemblerError>>)
    requires
        old(section).wf(),
    ensures
        final(section).wf(),
        old(section).tight() ==> final(section).tight(),
        final(section).deep_view() == (SectionView {
            data: resolve_all(
                old(section).data@,
                old(section).labels.deep_view(),
                old(section).references.deep_view(),
            ).0,
            ..old(section).deep_view()
        }),
        match result {
            Ok(image) => image@ == final(section).deep_view().image() && resolve_all(
                old(section).data@,
                old(section).labels.deep_view(),
                old(section).references.deep_view(),
            ).1.len() == 0,
            Err(errors) => errors.len() > 0 && errors.deep_view() == resolve_all(
                old(section).data@,
                old(section).labels.deep_view(),
                old(section).references.deep_view(),
            ).1,
        },
{
    match resolve_references(section) {
        Err(errors) => Err(errors),
        Ok(_) => {
            let lowest: usize = match section.lowest_origin {
                Some(lowest) => lowest,
                None => 0,
            };
            Ok(copy_range(section.data.as_slice(), lowest, section.highest_origin))
        },
    }
}

fn hex_string(n: usize, width: usize) -> (text: String)
    ensures
        text@ == ascii_text(hex_bytes(n as nat, width as nat)),
{
    let mut digits: Vec<u8> = Vec::new();
    push_hex(&mut digits, n, width);
    proof {
        lemma_hex_bytes_ascii(n as nat, width as nat);
        assert(digits@ =~= hex_bytes(n as nat, width as nat));
    }
    ascii_string(digits.as_slice())
}

/// The line of the symbol table for a label: a macro of its name for its
/// address.
pub open spec fn symbol_line(label: SectionLabelView) -> Seq<char> {
    label.name + " equ $"@ + ascii_text(hex_bytes(label.offset as nat, 4))
}

/// The lines of the symbol table: one for every global label, in order.
pub open spec fn symbol_lines(labels: Seq<SectionLabelView>) -> Seq<Seq<char>>
    decreases labels.len(),
{
    if labels.len() == 0 {
        Seq::empty()
    } else if labels.last().visibility == Visibility::Global {
        symbol_lines(labels.drop_last()).push(symbol_line(labels.last()))
    } else {
        symbol_lines(labels.drop_last())
    }
}

/// The text of the symbol table of a section: its global labels, one to a
/// line, each as a macro for its address.
pub fn create_symbol_table(section: &Section) -> (table: String)
    ensures
        table@ == joined(symbol_lines(section.labels.deep_view()), "\n"@),
{
    let mut lines: Vec<String> = Vec::new();
    let mut i: usize = 0;
    let ghost labels = section.labels.deep_view();
    assert(labels.subrange(0, 0) =~= Seq::empty());
    assert(lines.deep_view() =~= Seq::empty());
    while i < section.labels.len()
        invariant
            i <= section.labels.len(),
            labels == section.labels.deep_view(),
            lines.deep_view() == symbol_lines(labels.subrange(0, i as int)),
        decreases section.labels.len() - i,
    {
        let ghost before = lines.deep_view();
        assert(labels.subrange(0, i + 1).drop_last() =~= labels.subrange(0, i as int));
        assert(labels.subrange(0, i + 1).last() == section.labels[i as int].deep_view());
        if let Visibility::Global = section.labels[i].visibility {
            let mut line = section.labels[i].name.clone();
            line.append(" equ $");
            let address = hex_string(section.labels[i].offset, 4);
            line.append(address.as_str());
            lines.push(line);
            assert(lines.deep_view() =~= before.push(symbol_line(section.labels[i as int].deep_view())));
        }
        i += 1;
    }
    assert(labels.subrange(0, i as int) =~= labels);
    join(&lines, "\n")
}

/// The byte of memory at an address; zero outside of the memory.
pub open spec fn byte_at(data: Seq<u8>, address: int) -> u8 {
    if 0 <= address < data.len() {
        data[address]
    } else {
        0
    }
}

/// A byte of memory in two hexadecimal digits.
pub open spec fn hex2(data: Seq<u8>, address: int) -> Seq<char> {
    ascii_text(hex_bytes(byte_at(data, address) as nat, 2))
}

/// An address in at least four hexadecimal digits.
pub open spec fn hex4(address: int) -> Seq<char> {
    ascii_text(hex_bytes(address as nat, 4))
}

/// The columns of a row of the listing that shows up to three bytes of
/// code: nine characters wide.
pub open spec fn code_columns(data: Seq<u8>, start: int, count: int) -> Seq<char> {
    if count <= 0 {
        "         "@
    } else if count == 1 {
        hex2(data, start) + "       "@
    } else if count == 2 {
        hex2(data, start) + " "@ + hex2(data, start + 1) + "    "@
    } else {
        hex2(data, start) + " "@ + hex2(data, start + 1) + " "@ + hex2(data, start + 2) + " "@
    }
}

/// Rows added to `text` for the `count` bytes of code from `start` on,
/// three to a row, each row after the first with its address.
pub open spec fn with_rows(text: Seq<char>, data: Seq<u8>, start: int, count: int) -> Seq<char>
    decreases count,
{
    if count > 3 {
        with_rows(
            text + code_columns(data, start, 3) + "\n"@ + hex4(start + 3) + " "@,
            data,
            start + 3,
            count - 3,
        )
    } else {
        text + code_columns(data, start, count)
    }
}

/// How many bytes of code a line of the listing has.
pub open spec fn code_count(start: usize, end: usize) -> int {
    if end >= start {
        end - start
    } else {
        0
    }
}

/// A line of the listing: the address of its code, its code in rows of
/// three bytes, and its text beside the first row. A marker is its text.
pub open spec fn listing_line(data: Seq<u8>, line: ListingView) -> Seq<char> {
    match line.location {
        None => line.code,
        Some(place) => {
            let count = code_count(place.1, place.2);
            if count <= 3 {
                hex4(place.1 as int) + " "@ + code_columns(data, place.1 as int, count)
                    + line.code
            } else {
                with_rows(
                    hex4(place.1 as int) + " "@ + code_columns(data, place.1 as int, 3)
                        + line.code + "\n"@ + hex4(place.1 + 3) + " "@,
                    data,
                    place.1 + 3,
                    count - 3,
                )
            }
        },
    }
}

/// The lines of the listing.
pub open spec fn listing_lines(data: Seq<u8>, listings: Seq<ListingView>) -> Seq<Seq<char>> {
    Seq::new(listings.len(), |i: int| listing_line(data, listings[i]))
}

/// The last line of the listing: how many bytes the binary image has.
pub open spec fn summary_line(section: SectionView) -> Seq<char> {
    "              * Assembled "@ + ascii_text(
        decimal_bytes(
            (if section.highest_origin >= section.image_start() {
                section.highest_origin - section.image_start()
            } else {
                0
            }) as nat,
        ),
    ) + " bytes"@
}

fn byte_of(data: &Vec<u8>, address: usize) -> (byte: u8)
    ensures
        byte == byte_at(data@, address as int),
{
    if address < data.len() {
        data[address]
    } else {
        0
    }
}

/// Appends the columns of up to three bytes of code.
fn push_columns(text: &mut String, data: &Vec<u8>, start: usize, count: usize)
    requires
        count <= 3,
        start + count <= usize::MAX,
    ensures
        final(text)@ == old(text)@ + code_columns(data@, start as int, count as int),
{
    if count == 0 {
        text.append("         ");
    } else if count == 1 {
        let first = hex_string(byte_of(data, start) as usize, 2);
        text.append(first.as_str());
        text.append("       ");
        assert(text@ =~= old(text)@ + code_columns(data@, start as int, count as int));
    } else if count == 2 {
        let first = hex_string(byte_of(data, start) as usize, 2);
        let second = hex_string(byte_of(data, start + 1) as usize, 2);
        text.append(first.as_str());
        text.append(" ");
        text.append(second.as_str());
        text.append("    ");
        assert(text@ =~= old(text)@ + code_columns(data@, start as int, count as int));
    } else {
        let first = hex_string(byte_of(data, start) as usize, 2);
        let second = hex_string(byte_of(data, start + 1) as usize, 2);
        let third = hex_string(byte_of(data, start + 2) as usize, 2);
        text.append(first.as_str());
        text.append(" ");
        text.append(second.as_str());
        text.append(" ");
        text.append(third.as_str());
        text.append(" ");
        assert(text@ =~= old(text)@ + code_columns(data@, start as int, count as int));
    }
}

/// Renders a line of the listing.
fn render_line(data: &Vec<u8>, line: &Listing) -> (text: String)
    ensures
        text@ == listing_line(data@, line.deep_view()),
{
    match line.location {
        None => line.code.clone(),
        Some((_, start, end)) => {
            let count: usize = if end >= start {
                end - start
            } else {
                0
            };
            let mut text = hex_string(start, 4);
            text.append(" ");
            if count <= 3 {
                push_columns(&mut text, data, start, count);
                text.append(line.code.as_str());
                text
            } else {
                push_columns(&mut text, data, start, 3);
                text.append(line.code.as_str());
                text.append("\n");
                let next = hex_string(start + 3, 4);
                text.append(next.as_str());
                text.append(" ");
                let mut row: usize = start + 3;
                let mut left: usize = count - 3;
                while left > 3
                    invariant
                        row + left == end,
                        left >= 1,
                        with_rows(text@, data@, row as int, left as int) == listing_line(
                            data@,
                            line.deep_view(),
                        ),
                    decreases left,
                {
                    push_columns(&mut text, data, row, 3);
                    text.append("\n");
                    let address = hex_string(row + 3, 4);
                    text.append(address.as_str());
                    text.append(" ");
                    row += 3;
                    left -= 3;
                }
                push_columns(&mut text, data, row, left);
                text
            }
        },
    }
}

/// The text of the listing of a section: every line of the source with the
/// address and the bytes of its code, and how many bytes were assembled.
pub fn create_listing(section: &Section, listings: Vec<Listing>) -> (text: String)
    ensures
        text@ == joined(
            listing_lines(section.data@, listings.deep_view()).push(
                summary_line(section.deep_view()),
            ),
            "\n"@,
        ),
{
    let mut lines: Vec<String> = Vec::new();
    let mut i: usize = 0;
    while i < listings.len()
        invariant
            i <= listings.len(),
            lines.len() == i,
            forall|k: int|
                0 <= k < i ==> (#[trigger] lines[k])@ == listing_line(
                    section.data@,
                    listings[k].deep_view(),
                ),
        decreases listings.len() - i,
    {
        let line = render_line(&section.data, &listings[i]);
        lines.push(line);
        i += 1;
    }
    let lowest: usize = match section.lowest_origin {
        Some(lowest) => lowest,
        None => 0,
    };
    let size: usize = if section.highest_origin >= lowest {
        section.highest_origin - lowest
    } else {
        0
    };
    let mut digits: Vec<u8> = Vec::new();
    push_decimal(&mut digits, size as u64);
    proof {
        lemma_decimal_bytes_ascii(size as nat);
        assert(digits@ =~= decimal_bytes(size as nat));
    }
    let number = ascii_string(digits.as_slice());
    let mut summary = String::from_str("              * Assembled ");
    summary.append(number.as_str());
    summary.append(" bytes");
    lines.push(summary);
    assert(lines.deep_view() =~= listing_lines(section.data@, listings.deep_view()).push(
        summary_line(section.deep_view()),
    ));
    join(&lines, "\n")
}

} // verus!
