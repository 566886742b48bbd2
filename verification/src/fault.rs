//! Faults and the text that reports them.

use crate::format::{error_text, FormatError};
use crate::number::{nat_text, push_u64};
use crate::text::push_str;
use vstd::prelude::*;
use vstd::string::StringSliceAdditionalSpecFns;
use vstd::utf8::encode_utf8;

verus! {

/// A place in the source, as the report shows it.
pub struct LocationModel {
    /// The UTF-8 bytes of the file's name.
    pub file: Seq<u8>,
    pub line: nat,
    pub column: nat,
}

/// A fault, as the report shows it.
pub struct FaultModel {
    /// The UTF-8 bytes of the message.
    pub message: Seq<u8>,
    pub location: LocationModel,
}

/// A place as `file:line:column`.
pub open spec fn location_text(l: LocationModel) -> Seq<u8> {
    l.file + seq![58u8] + nat_text(l.line) + seq![58u8] + nat_text(l.column)
}

/// The record of a fault, its message and its place each on a line of its own.
pub open spec fn fault_text(f: FaultModel) -> Seq<u8> {
    "FaultRecord {\n    message: ".spec_bytes() + f.message + ",\n    location: ".spec_bytes()
        + location_text(f.location) + ",\n}".spec_bytes()
}

/// What the kernel says when it gives up: the header on a line of its own,
/// then the record of the fault and a newline.
pub open spec fn panic_text(f: FaultModel) -> Seq<u8> {
    "KERNEL PANIC".spec_bytes() + seq![10u8] + fault_text(f) + seq![10u8]
}

/// The fault that a template which cannot be rendered is reported as.
pub open spec fn format_fault(e: FormatError, at: LocationModel) -> FaultModel {
    FaultModel { message: error_text(e), location: at }
}

/// The place in the source where a fault was detected.
pub struct Location {
    pub file: String,
    pub line: u32,
    pub column: u32,
}

impl View for Location {
    type V = LocationModel;

    open spec fn view(&self) -> LocationModel {
        LocationModel {
            file: encode_utf8(self.file@),
            line: self.line as nat,
            column: self.column as nat,
        }
    }
}

/// An unrecoverable fault: what went wrong and where it was detected.
pub struct FaultRecord {
    pub message: String,
    pub location: Location,
}

impl View for FaultRecord {
    type V = FaultModel;

    open spec fn view(&self) -> FaultModel {
        FaultModel { message: encode_utf8(self.message@), location: self.location@ }
    }
}

impl Location {
    /// The place `file:line:column`.
    pub fn new(file: &str, line: u32, column: u32) -> (at: Location)
        ensures
            at@ == (LocationModel {
                file: file.spec_bytes(),
                line: line as nat,
                column: column as nat,
            }),
    {
        Location { file: file.to_owned(), line, column }
    }

    /// A copy of the place.
    pub fn duplicate(&self) -> (copy: Location)
        ensures
            copy@ == self@,
    {
        Location { file: self.file.clone(), line: self.line, column: self.column }
    }

    /// Appends the place as `file:line:column` to `out`.
    pub fn push_text(&self, out: &mut Vec<u8>)
        ensures
            final(out)@ == old(out)@ + location_text(self@),
    {
        push_str(out, self.file.as_str());
        out.push(58);
        push_u64(out, self.line as u64);
        out.push(58);
        push_u64(out, self.column as u64);
        assert(final(out)@ == old(out)@ + (encode_utf8(self.file@) + seq![58u8] + nat_text(
            self.line as nat,
        ) + seq![58u8] + nat_text(self.column as nat)));
    }
}

impl FaultRecord {
    /// The fault with this message, detected at `location`.
    pub fn new(message: &str, location: Location) -> (fault: FaultRecord)
        ensures
            fault@ == (FaultModel { message: message.spec_bytes(), location: location@ }),
    {
        FaultRecord { message: message.to_owned(), location }
    }

    /// The fault that a template which cannot be rendered is reported as,
    /// detected at `at`.
    pub fn from_format_error(e: FormatError, at: &Location) -> (fault: FaultRecord)
        ensures
            fault@ == format_fault(e, at@),
    {
        FaultRecord::new(e.describe(), at.duplicate())
    }

    /// Appends the record of the fault to `out`.
    pub fn push_text(&self, out: &mut Vec<u8>)
        ensures
            final(out)@ == old(out)@ + fault_text(self@),
    {
        push_str(out, "FaultRecord {\n    message: ");
        push_str(out, self.message.as_str());
        push_str(out, ",\n    location: ");
        self.location.push_text(out);
        push_str(out, ",\n}");
        assert(final(out)@ == old(out)@ + ("FaultRecord {\n    message: ".spec_bytes()
            + encode_utf8(self.message@) + ",\n    location: ".spec_bytes() + location_text(
            self.location@,
        ) + ",\n}".spec_bytes()));
    }

    /// What the kernel says of this fault when it gives up.
    pub fn report(&self) -> (text: Vec<u8>)
        ensures
            text@ == panic_text(self@),
    {
        let mut text: Vec<u8> = Vec::new();
        push_str(&mut text, "KERNEL PANIC");
        text.push(10);
        self.push_text(&mut text);
        text.push(10);
        assert(text@ == "KERNEL PANIC".spec_bytes() + seq![10u8] + fault_text(self@) + seq![10u8]);
        text
    }
}

/// The report of any fault begins with the header, and the record that
/// follows the header's line is never empty.
pub proof fn lemma_panic_text_shape(f: FaultModel)
    ensures
        "KERNEL PANIC".spec_bytes().is_prefix_of(panic_text(f)),
        fault_text(f).len() > 0,
        panic_text(f).len() > "KERNEL PANIC".spec_bytes().len() + fault_text(f).len(),
        panic_text(f).last() == 10u8,
{
    let header = "KERNEL PANIC".spec_bytes();
    assert(location_text(f.location).len() >= 2);
    assert(panic_text(f).subrange(0, header.len() as int) == header);
}

} // verus!
