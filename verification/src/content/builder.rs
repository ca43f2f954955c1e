//! A builder of content stream bytes: operands, then the operator, one
//! operation per line.
use vstd::prelude::*;
use crate::objects::{escape_literal_byte, escape_name, write_escaped_name_bytes};
use crate::seqs::concat_map;
use crate::unicode::{push_signed_decimal, signed_decimal};
use vstd::string::StringSliceAdditionalSpecFns;

verus! {

/// An item of a `TJ` array.
#[derive(Debug, Clone, PartialEq)]
pub enum TextItem<'a> {
    /// A text string to show.
    Text(&'a str),
    /// A spacing adjustment in thousandths of a unit of text space.
    Spacing(i64),
}

/// Builds content stream bytes: each call appends the bytes of one
/// operation, and `build` gives the bytes as they were written.
pub struct ContentStreamBuilder {
    buf: Vec<u8>,
}

impl View for ContentStreamBuilder {
    type V = Seq<u8>;

    closed spec fn view(&self) -> Seq<u8> {
        self.buf@
    }
}

/// The units of a literal string's contents: its bytes with `(`, `)` and
/// `\` escaped.
pub open spec fn literal_units(bytes: Seq<u8>) -> Seq<u8> {
    concat_map(bytes, |b: u8| escape_literal_byte(b))
}

/// The ASCII bytes of a text of ASCII characters.
pub open spec fn ascii_bytes(cs: Seq<char>) -> Seq<u8> {
    cs.map_values(|c: char| (c as u32) as u8)
}

/// The units of one `TJ` array item.
pub open spec fn item_units(item: TextItem) -> Seq<u8> {
    match item {
        TextItem::Text(s) => seq![0x28u8] + literal_units(s.spec_bytes()) + seq![0x29u8],
        TextItem::Spacing(n) => ascii_bytes(signed_decimal(n as int)),
    }
}

/// The units of a `TJ` operation appended to `before`: `[`, the items
/// separated by spaces, `] TJ` and a newline.
pub open spec fn tj_units(before: Seq<u8>, items: Seq<TextItem>) -> Seq<u8> {
    let s = before + seq![0x5Bu8] + concat_map(items, |it: TextItem| item_units(it) + seq![0x20u8]);
    let trimmed = if s.len() > 0 && s.last() == 0x20 {
        s.drop_last()
    } else {
        s
    };
    trimmed + seq![0x5Du8, 0x20u8, 0x54u8, 0x4Au8, 0x0Au8]
}

pub(crate) fn push_all(buf: &mut Vec<u8>, bytes: &[u8])
    ensures
        final(buf)@ == old(buf)@ + bytes@,
{
    let ghost start = buf@;
    let mut i: usize = 0;
    while i < bytes.len()
        invariant
            i <= bytes.len(),
            buf@ == start + bytes@.take(i as int),
        decreases bytes.len() - i,
    {
        buf.push(bytes[i]);
        i = i + 1;
        assert(buf@ =~= start + bytes@.take(i as int));
    }
    assert(bytes@.take(bytes.len() as int) =~= bytes@);
}

fn push_literal(buf: &mut Vec<u8>, bytes: &[u8])
    ensures
        final(buf)@ == old(buf)@ + literal_units(bytes@),
{
    let ghost f = |b: u8| escape_literal_byte(b);
    let ghost start = buf@;
    let mut i: usize = 0;
    while i < bytes.len()
        invariant
            i <= bytes.len(),
            f == (|b: u8| escape_literal_byte(b)),
            buf@ == start + concat_map(bytes@.take(i as int), f),
        decreases bytes.len() - i,
    {
        let b = bytes[i];
        proof {
            crate::seqs::lemma_concat_map_take(bytes@, i as int, f);
        }
        if b == 0x28 || b == 0x29 || b == 0x5C {
            buf.push(0x5C);
        }
        buf.push(b);
        i = i + 1;
        assert(buf@ =~= start + concat_map(bytes@.take(i as int), f));
    }
    assert(bytes@.take(bytes.len() as int) =~= bytes@);
}

pub(crate) fn push_signed_decimal_units(buf: &mut Vec<u8>, n: i64)
    ensures
        final(buf)@ == old(buf)@ + ascii_bytes(signed_decimal(n as int)),
{
    let mut cs: Vec<char> = Vec::new();
    push_signed_decimal(&mut cs, n);
    let ghost start = buf@;
    let mut i: usize = 0;
    while i < cs.len()
        invariant
            i <= cs.len(),
            buf@ == start + ascii_bytes(cs@.take(i as int)),
        decreases cs.len() - i,
    {
        let u: u32 = cs[i] as u32;
        buf.push(u as u8);
        i = i + 1;
        assert(buf@ =~= start + ascii_bytes(cs@.take(i as int)));
    }
    assert(cs@.take(cs.len() as int) =~= cs@);
    assert(cs@ =~= Seq::<char>::empty() + signed_decimal(n as int));
}

/// The units of an operation with written operands: each operand and a
/// space, then the operator and a newline.
pub open spec fn operation_units(operands: Seq<&str>, op: &str) -> Seq<u8> {
    concat_map(operands, |s: &str| s.spec_bytes() + seq![0x20u8]) + op.spec_bytes() + seq![0x0Au8]
}

/// A `TJ` operation only appends to what was written before it: its
/// units are those written before, then the units it has on its own.
pub proof fn lemma_tj_appends(before: Seq<u8>, items: Seq<TextItem>)
    ensures
        tj_units(before, items) == before + tj_units(Seq::empty(), items),
{
    let f = |it: TextItem| item_units(it) + seq![0x20u8];
    let tail = seq![0x5Bu8] + concat_map(items, f);
    assert(before + seq![0x5Bu8] + concat_map(items, f) =~= before + tail);
    assert(Seq::<u8>::empty() + seq![0x5Bu8] + concat_map(items, f) =~= tail);
    assert(tail.len() > 0);
    if tail.last() == 0x20 {
        assert((before + tail).drop_last() =~= before + tail.drop_last());
    }
}

/// The characters of bytes taken one for one.
pub open spec fn byte_chars(bytes: Seq<u8>) -> Seq<char> {
    bytes.map_values(|b: u8| b as char)
}

/// A name operand: `/` and the name's bytes with special bytes escaped as
/// `#xx`, one character per byte.
pub fn name_operand(name: &str) -> (r: String)
    ensures
        r@ == byte_chars(seq![0x2Fu8] + escape_name(name.spec_bytes())),
{
    let mut bytes: Vec<u8> = Vec::new();
    bytes.push(0x2F);
    write_escaped_name_bytes(&mut bytes, name.as_bytes());
    let mut cs: Vec<char> = Vec::new();
    let mut i: usize = 0;
    while i < bytes.len()
        invariant
            i <= bytes@.len(),
            cs@ =~= byte_chars(bytes@.take(i as int)),
        decreases bytes@.len() - i,
    {
        cs.push(bytes[i] as char);
        i = i + 1;
    }
    assert(bytes@.take(bytes@.len() as int) =~= bytes@);
    crate::unicode::string_from_chars(cs.as_slice())
}

impl ContentStreamBuilder {
    /// An empty builder.
    pub fn new() -> (r: ContentStreamBuilder)
        ensures
            r@ == Seq::<u8>::empty(),
    {
        ContentStreamBuilder { buf: Vec::new() }
    }

    /// Begins a text object: `BT`.
    pub fn begin_text(&mut self) -> (r: &mut Self)
        ensures
            r@ == old(self)@ + seq![0x42u8, 0x54u8, 0x0Au8],
            *final(self) == *final(r),
    {
        push_all(&mut self.buf, &[0x42u8, 0x54u8, 0x0Au8]);
        self
    }

    /// Ends a text object: `ET`.
    pub fn end_text(&mut self) -> (r: &mut Self)
        ensures
            r@ == old(self)@ + seq![0x45u8, 0x54u8, 0x0Au8],
            *final(self) == *final(r),
    {
        push_all(&mut self.buf, &[0x45u8, 0x54u8, 0x0Au8]);
        self
    }

    /// Shows a text string: `(text) Tj`, with `(`, `)` and `\` escaped.
    pub fn show_text(&mut self, text: &str) -> (r: &mut Self)
        ensures
            r@ == old(self)@ + seq![0x28u8] + literal_units(text.spec_bytes()) + seq![
                0x29u8,
                0x20u8,
                0x54u8,
                0x6Au8,
                0x0Au8,
            ],
            *final(self) == *final(r),
    {
        self.buf.push(0x28);
        push_literal(&mut self.buf, text.as_bytes());
        push_all(&mut self.buf, &[0x29u8, 0x20u8, 0x54u8, 0x6Au8, 0x0Au8]);
        self
    }

    /// Shows text with individual glyph positioning: `[..] TJ`.
    pub fn show_text_adjusted(&mut self, items: &[TextItem<'_>]) -> (r: &mut Self)
        ensures
            r@ == tj_units(old(self)@, items@),
            *final(self) == *final(r),
    {
        let ghost f = |it: TextItem| item_units(it) + seq![0x20u8];
        let ghost start = self.buf@ + seq![0x5Bu8];
        self.buf.push(0x5B);
        let mut i: usize = 0;
        while i < items.len()
            invariant
                i <= items.len(),
                f == (|it: TextItem| item_units(it) + seq![0x20u8]),
                self.buf@ == start + concat_map(items@.take(i as int), f),
            decreases items.len() - i,
        {
            proof {
                crate::seqs::lemma_concat_map_take(items@, i as int, f);
            }
            match &items[i] {
                TextItem::Text(s) => {
                    self.buf.push(0x28);
                    push_literal(&mut self.buf, s.as_bytes());
                    self.buf.push(0x29);
                },
                TextItem::Spacing(n) => {
                    push_signed_decimal_units(&mut self.buf, *n);
                },
            }
            self.buf.push(0x20);
            i = i + 1;
            assert(self.buf@ =~= start + concat_map(items@.take(i as int), f));
        }
        assert(items@.take(items.len() as int) =~= items@);
        let n = self.buf.len();
        if n > 0 && self.buf[n - 1] == 0x20 {
            self.buf.pop();
        }
        push_all(&mut self.buf, &[0x5Du8, 0x20u8, 0x54u8, 0x4Au8, 0x0Au8]);
        self
    }

    /// Moves to the next line: `T*`.
    pub fn next_line(&mut self) -> (r: &mut Self)
        ensures
            r@ == old(self)@ + seq![0x54u8, 0x2Au8, 0x0Au8],
            *final(self) == *final(r),
    {
        push_all(&mut self.buf, &[0x54u8, 0x2Au8, 0x0Au8]);
        self
    }

    /// Saves the graphics state: `q`.
    pub fn save_state(&mut self) -> (r: &mut Self)
        ensures
            r@ == old(self)@ + seq![0x71u8, 0x0Au8],
            *final(self) == *final(r),
    {
        push_all(&mut self.buf, &[0x71u8, 0x0Au8]);
        self
    }

    /// Restores the graphics state: `Q`.
    pub fn restore_state(&mut self) -> (r: &mut Self)
        ensures
            r@ == old(self)@ + seq![0x51u8, 0x0Au8],
            *final(self) == *final(r),
    {
        push_all(&mut self.buf, &[0x51u8, 0x0Au8]);
        self
    }

    /// Strokes the path: `S`.
    pub fn stroke(&mut self) -> (r: &mut Self)
        ensures
            r@ == old(self)@ + seq![0x53u8, 0x0Au8],
            *final(self) == *final(r),
    {
        push_all(&mut self.buf, &[0x53u8, 0x0Au8]);
        self
    }

    /// Fills the path with the nonzero winding rule: `f`.
    pub fn fill(&mut self) -> (r: &mut Self)
        ensures
            r@ == old(self)@ + seq![0x66u8, 0x0Au8],
            *final(self) == *final(r),
    {
        push_all(&mut self.buf, &[0x66u8, 0x0Au8]);
        self
    }

    /// Fills and then strokes the path: `B`.
    pub fn fill_and_stroke(&mut self) -> (r: &mut Self)
        ensures
            r@ == old(self)@ + seq![0x42u8, 0x0Au8],
            *final(self) == *final(r),
    {
        push_all(&mut self.buf, &[0x42u8, 0x0Au8]);
        self
    }

    /// Closes the current subpath: `h`.
    pub fn close_path(&mut self) -> (r: &mut Self)
        ensures
            r@ == old(self)@ + seq![0x68u8, 0x0Au8],
            *final(self) == *final(r),
    {
        push_all(&mut self.buf, &[0x68u8, 0x0Au8]);
        self
    }

    /// Paints an XObject by name: `/name Do`, with special name bytes
    /// escaped as `#xx`.
    pub fn draw_image(&mut self, name: &str) -> (r: &mut Self)
        ensures
            r@ == old(self)@ + seq![0x2Fu8] + escape_name(name.spec_bytes()) + seq![
                0x20u8,
                0x44u8,
                0x6Fu8,
                0x0Au8,
            ],
            *final(self) == *final(r),
    {
        self.buf.push(0x2F);
        write_escaped_name_bytes(&mut self.buf, name.as_bytes());
        push_all(&mut self.buf, &[0x20u8, 0x44u8, 0x6Fu8, 0x0Au8]);
        self
    }

    /// Appends an operation whose operands are already written in content
    /// stream syntax (numbers as text, names as given by [`name_operand`]):
    /// each operand followed by a space, then the operator and a newline.
    pub fn operation(&mut self, operands: &[&str], op: &str) -> (r: &mut Self)
        ensures
            r@ == old(self)@ + operation_units(operands@, op),
            *final(self) == *final(r),
    {
        let ghost f = |s: &str| s.spec_bytes() + seq![0x20u8];
        let ghost start = self.buf@;
        let mut i: usize = 0;
        while i < operands.len()
            invariant
                i <= operands@.len(),
                f == (|s: &str| s.spec_bytes() + seq![0x20u8]),
                self.buf@ == start + concat_map(operands@.take(i as int), f),
            decreases operands@.len() - i,
        {
            proof {
                crate::seqs::lemma_concat_map_take(operands@, i as int, f);
            }
            push_all(&mut self.buf, operands[i].as_bytes());
            self.buf.push(0x20);
            i = i + 1;
            assert(self.buf@ =~= start + concat_map(operands@.take(i as int), f));
        }
        assert(operands@.take(operands@.len() as int) =~= operands@);
        push_all(&mut self.buf, op.as_bytes());
        self.buf.push(0x0A);
        self
    }

    /// The content stream bytes, as written.
    pub fn build(self) -> (r: Vec<u8>)
        ensures
            r@ == self@,
    {
        self.buf
    }
}

impl Default for ContentStreamBuilder {
    fn default() -> (r: ContentStreamBuilder)
        ensures
            r@ == Seq::<u8>::empty(),
    {
        ContentStreamBuilder::new()
    }
}

/// A call of one of the builder's writing methods, with its arguments.
pub enum BuilderCall<'a> {
    /// [`ContentStreamBuilder::begin_text`].
    BeginText,
    /// [`ContentStreamBuilder::end_text`].
    EndText,
    /// [`ContentStreamBuilder::show_text`].
    ShowText(&'a str),
    /// [`ContentStreamBuilder::show_text_adjusted`].
    ShowTextAdjusted(&'a [TextItem<'a>]),
    /// [`ContentStreamBuilder::next_line`].
    NextLine,
    /// [`ContentStreamBuilder::save_state`].
    SaveState,
    /// [`ContentStreamBuilder::restore_state`].
    RestoreState,
    /// [`ContentStreamBuilder::stroke`].
    Stroke,
    /// [`ContentStreamBuilder::fill`].
    Fill,
    /// [`ContentStreamBuilder::fill_and_stroke`].
    FillAndStroke,
    /// [`ContentStreamBuilder::close_path`].
    ClosePath,
    /// [`ContentStreamBuilder::draw_image`].
    DrawImage(&'a str),
    /// [`ContentStreamBuilder::operation`].
    Operation(&'a [&'a str], &'a str),
}

/// The bytes one call writes: what a new builder holds after that call
/// alone.
pub open spec fn call_output(c: BuilderCall) -> Seq<u8> {
    match c {
        BuilderCall::BeginText => seq![0x42u8, 0x54u8, 0x0Au8],
        BuilderCall::EndText => seq![0x45u8, 0x54u8, 0x0Au8],
        BuilderCall::ShowText(text) => seq![0x28u8] + literal_units(text.spec_bytes()) + seq![
            0x29u8,
            0x20u8,
            0x54u8,
            0x6Au8,
            0x0Au8,
        ],
        BuilderCall::ShowTextAdjusted(items) => tj_units(Seq::empty(), items@),
        BuilderCall::NextLine => seq![0x54u8, 0x2Au8, 0x0Au8],
        BuilderCall::SaveState => seq![0x71u8, 0x0Au8],
        BuilderCall::RestoreState => seq![0x51u8, 0x0Au8],
        BuilderCall::Stroke => seq![0x53u8, 0x0Au8],
        BuilderCall::Fill => seq![0x66u8, 0x0Au8],
        BuilderCall::FillAndStroke => seq![0x42u8, 0x0Au8],
        BuilderCall::ClosePath => seq![0x68u8, 0x0Au8],
        BuilderCall::DrawImage(name) => seq![0x2Fu8] + escape_name(name.spec_bytes()) + seq![
            0x20u8,
            0x44u8,
            0x6Fu8,
            0x0Au8,
        ],
        BuilderCall::Operation(operands, op) => operation_units(operands@, op),
    }
}

impl ContentStreamBuilder {
    /// Makes one call: what the builder holds grows by that call's bytes.
    pub fn apply(&mut self, c: &BuilderCall) -> (r: &mut Self)
        ensures
            r@ == old(self)@ + call_output(*c),
            *final(self) == *final(r),
    {
        match c {
            BuilderCall::BeginText => self.begin_text(),
            BuilderCall::EndText => self.end_text(),
            BuilderCall::ShowText(text) => self.show_text(text),
            BuilderCall::ShowTextAdjusted(items) => {
                proof {
                    lemma_tj_appends(self@, items@);
                }
                self.show_text_adjusted(items)
            },
            BuilderCall::NextLine => self.next_line(),
            BuilderCall::SaveState => self.save_state(),
            BuilderCall::RestoreState => self.restore_state(),
            BuilderCall::Stroke => self.stroke(),
            BuilderCall::Fill => self.fill(),
            BuilderCall::FillAndStroke => self.fill_and_stroke(),
            BuilderCall::ClosePath => self.close_path(),
            BuilderCall::DrawImage(name) => self.draw_image(name),
            BuilderCall::Operation(operands, op) => self.operation(operands, op),
        }
    }

    /// Makes the calls in order. Each call only appends: the builder ends
    /// up holding what it held, then each call's own bytes in turn, so a
    /// new builder given calls `c1, ..., cn` builds the bytes of `c1`
    /// alone, then those of `c2` alone, and so on.
    pub fn apply_all(&mut self, calls: &[BuilderCall]) -> (r: &mut Self)
        ensures
            r@ == old(self)@ + concat_map(calls@, |c: BuilderCall| call_output(c)),
            *final(self) == *final(r),
    {
        let ghost f = |c: BuilderCall| call_output(c);
        let ghost start = self@;
        let mut i: usize = 0;
        while i < calls.len()
            invariant
                i <= calls@.len(),
                f == (|c: BuilderCall| call_output(c)),
                self@ == start + concat_map(calls@.take(i as int), f),
            decreases calls@.len() - i,
        {
            proof {
                crate::seqs::lemma_concat_map_take(calls@, i as int, f);
            }
            self.apply(&calls[i]);
            i = i + 1;
            assert(self@ =~= start + concat_map(calls@.take(i as int), f));
        }
        assert(calls@.take(calls@.len() as int) =~= calls@);
        self
    }
}

} // verus!
