//! The image as a plain-text pixel stream: a magic line, a line with width
//! and height, a line with the largest channel value, then one line per
//! pixel.

use crate::decimal::{
    decimal, lemma_decimal_reads_back, lemma_digit_is_no_separator, push_decimal, value,
};
use vstd::prelude::*;
use vstd::string::StringExecFns;

verus! {

/// A quantized pixel: one byte for each of red, green and blue.
#[derive(Clone, Copy, Debug, PartialEq, Eq, Structural)]
pub struct Rgb {
    pub red: u8,
    pub green: u8,
    pub blue: u8,
}

impl Rgb {
    /// The pixel's line without its newline: the three channels in decimal,
    /// separated by single spaces.
    pub open spec fn triple(self) -> Seq<char> {
        decimal(self.red as nat) + seq![' '] + decimal(self.green as nat) + seq![' '] + decimal(
            self.blue as nat,
        )
    }

    /// The pixel's line in the stream.
    pub open spec fn line(self) -> Seq<char> {
        self.triple().push('\n')
    }

    pub fn format_str(&self) -> (text: String)
        ensures
            text@ == self.line(),
    {
        let mut text = String::new();
        push_decimal(&mut text, self.red as u64);
        push_literal_space(&mut text);
        push_decimal(&mut text, self.green as u64);
        push_literal_space(&mut text);
        push_decimal(&mut text, self.blue as u64);
        push_literal_newline(&mut text);
        text
    }
}

fn push_literal_space(text: &mut String)
    ensures
        final(text)@ == old(text)@.push(' '),
{
    proof {
        reveal_strlit(" ");
    }
    text.append(" ");
    assert(text@ =~= old(text)@.push(' '));
}

fn push_literal_newline(text: &mut String)
    ensures
        final(text)@ == old(text)@.push('\n'),
{
    proof {
        reveal_strlit("\n");
    }
    text.append("\n");
    assert(text@ =~= old(text)@.push('\n'));
}

fn push_line(text: &mut String, line: &str)
    ensures
        final(text)@ == old(text)@ + line@.push('\n'),
{
    text.append(line);
    push_literal_newline(text);
    assert(text@ =~= old(text)@ + line@.push('\n'));
}

/// The first line of every image.
pub open spec fn magic() -> Seq<char> {
    seq!['P', '3']
}

/// The largest value a channel can take, as the third line states it.
pub open spec fn channel_limit() -> Seq<char> {
    seq!['2', '5', '5']
}

/// The second line: width and height, separated by a single space.
pub open spec fn dimensions(width: nat, height: nat) -> Seq<char> {
    decimal(width) + seq![' '] + decimal(height)
}

/// The lines of an image, in order and without their newlines: the three
/// header lines, then one line for each pixel.
pub open spec fn image_lines(width: nat, height: nat, pixels: Seq<Rgb>) -> Seq<Seq<char>> {
    seq![magic(), dimensions(width, height), channel_limit()] + pixels.map_values(
        |pixel: Rgb| pixel.triple(),
    )
}

/// The text in which each of `lines` is followed by one `end`.
pub open spec fn terminated(lines: Seq<Seq<char>>, end: char) -> Seq<char>
    decreases lines.len(),
{
    if lines.len() == 0 {
        Seq::empty()
    } else {
        terminated(lines.drop_last(), end) + lines.last().push(end)
    }
}

/// The whole image as text.
pub open spec fn image(width: nat, height: nat, pixels: Seq<Rgb>) -> Seq<char> {
    terminated(image_lines(width, height, pixels), '\n')
}

/// Writes an image of `width` by `height` pixels. `pixels` holds the rows
/// from top to bottom, each row from left to right.
pub fn image_text(width: u64, height: u64, pixels: &Vec<Rgb>) -> (text: String)
    requires
        pixels.len() == width * height,
    ensures
        text@ == image(width as nat, height as nat, pixels@),
{
    let mut text = String::new();
    proof {
        reveal_strlit("P3");
        reveal_strlit("255");
    }
    push_line(&mut text, "P3");
    push_decimal(&mut text, width);
    push_literal_space(&mut text);
    push_decimal(&mut text, height);
    push_literal_newline(&mut text);
    push_line(&mut text, "255");
    let ghost header = seq![
        magic(),
        dimensions(width as nat, height as nat),
        channel_limit(),
    ];
    proof {
        reveal_with_fuel(terminated, 4);
        assert("P3"@ =~= magic());
        assert("255"@ =~= channel_limit());
        assert(header.drop_last() =~= seq![magic(), dimensions(width as nat, height as nat)]);
        assert(header.drop_last().drop_last() =~= seq![magic()]);
        assert(header.drop_last().drop_last().drop_last() =~= Seq::<Seq<char>>::empty());
        assert(text@ =~= terminated(header, '\n'));
        assert(image_lines(width as nat, height as nat, pixels@.take(0)) =~= header);
    }
    let mut index: usize = 0;
    while index < pixels.len()
        invariant
            index <= pixels.len(),
            text@ == image(width as nat, height as nat, pixels@.take(index as int)),
        decreases pixels.len() - index,
    {
        let line = pixels[index].format_str();
        text.append(line.as_str());
        proof {
            let before = image_lines(width as nat, height as nat, pixels@.take(index as int));
            let after = image_lines(width as nat, height as nat, pixels@.take(index + 1));
            assert(after.drop_last() =~= before);
            assert(after.last() == pixels@[index as int].triple());
        }
        index += 1;
    }
    assert(pixels@.take(index as int) =~= pixels@);
    text
}

/// The pieces of `text` between occurrences of `sep`. A text with `n`
/// separators has `n + 1` pieces, some of which may be empty.
pub open spec fn split(text: Seq<char>, sep: char) -> Seq<Seq<char>>
    decreases text.len(),
{
    if text.len() == 0 {
        seq![Seq::empty()]
    } else if text.last() == sep {
        split(text.drop_last(), sep).push(Seq::empty())
    } else {
        let pieces = split(text.drop_last(), sep);
        pieces.drop_last().push(pieces.last().push(text.last()))
    }
}

/// Splitting never yields an empty list of pieces.
pub proof fn lemma_split_is_nonempty(text: Seq<char>, sep: char)
    ensures
        split(text, sep).len() >= 1,
    decreases text.len(),
{
    if text.len() > 0 {
        lemma_split_is_nonempty(text.drop_last(), sep);
    }
}

/// Text without a separator, appended to any text, extends that text's last
/// piece.
pub proof fn lemma_split_append(text: Seq<char>, more: Seq<char>, sep: char)
    requires
        forall|i: int| 0 <= i < more.len() ==> more[i] != sep,
    ensures
        split(text + more, sep) == split(text, sep).drop_last().push(
            split(text, sep).last() + more,
        ),
    decreases more.len(),
{
    lemma_split_is_nonempty(text, sep);
    if more.len() == 0 {
        assert(text + more =~= text);
        assert(split(text, sep).last() + more =~= split(text, sep).last());
        assert(split(text, sep).drop_last().push(split(text, sep).last()) =~= split(text, sep));
    } else {
        lemma_split_append(text, more.drop_last(), sep);
        assert((text + more).drop_last() =~= text + more.drop_last());
        let pieces = split(text + more.drop_last(), sep);
        assert(pieces.last().push(more.last()) =~= split(text, sep).last() + more);
        assert(pieces.drop_last() =~= split(text, sep).drop_last());
    }
}

/// Lines that hold no newline are read back from their text one by one, and
/// nothing is left after the last newline.
pub proof fn lemma_split_terminated(lines: Seq<Seq<char>>, end: char)
    requires
        forall|k: int, i: int|
            0 <= k < lines.len() && 0 <= i < lines[k].len() ==> #[trigger] lines[k][i] != end,
    ensures
        split(terminated(lines, end), end) == lines.push(Seq::empty()),
    decreases lines.len(),
{
    if lines.len() == 0 {
        assert(split(terminated(lines, end), end) =~= lines.push(Seq::empty()));
    } else {
        let front = lines.drop_last();
        assert forall|k: int, i: int|
            0 <= k < front.len() && 0 <= i < front[k].len() implies #[trigger] front[k][i] != end by {
            assert(front[k][i] == lines[k][i]);
        }
        lemma_split_terminated(front, end);
        let text = terminated(front, end);
        assert forall|i: int| 0 <= i < lines.last().len() implies lines.last()[i] != end by {
            assert(lines.last()[i] == lines[lines.len() - 1][i]);
        }
        lemma_split_append(text, lines.last(), end);
        assert(terminated(lines, end) =~= (text + lines.last()).push(end));
        assert((text + lines.last()).push(end).drop_last() =~= text + lines.last());
        assert(Seq::<char>::empty() + lines.last() =~= lines.last());
        assert(front.push(Seq::empty()).drop_last() =~= front);
        assert(front.push(lines.last()) =~= lines);
    }
}

/// A pixel's line splits at its spaces into exactly three numbers, which are
/// its channels.
pub proof fn lemma_triple_reads_back(pixel: Rgb)
    ensures
        split(pixel.triple(), ' ') == seq![
            decimal(pixel.red as nat),
            decimal(pixel.green as nat),
            decimal(pixel.blue as nat),
        ],
        value(decimal(pixel.red as nat)) == pixel.red <= 255,
        value(decimal(pixel.green as nat)) == pixel.green <= 255,
        value(decimal(pixel.blue as nat)) == pixel.blue <= 255,
        forall|i: int| 0 <= i < pixel.triple().len() ==> #[trigger] pixel.triple()[i] != '\n',
{
    let red = decimal(pixel.red as nat);
    let green = decimal(pixel.green as nat);
    let blue = decimal(pixel.blue as nat);
    lemma_decimal_reads_back(pixel.red as nat);
    lemma_decimal_reads_back(pixel.green as nat);
    lemma_decimal_reads_back(pixel.blue as nat);
    assert forall|i: int| 0 <= i < red.len() implies red[i] != ' ' && red[i] != '\n' by {
        lemma_digit_is_no_separator(red[i]);
    }
    assert forall|i: int| 0 <= i < green.len() implies green[i] != ' ' && green[i] != '\n' by {
        lemma_digit_is_no_separator(green[i]);
    }
    assert forall|i: int| 0 <= i < blue.len() implies blue[i] != ' ' && blue[i] != '\n' by {
        lemma_digit_is_no_separator(blue[i]);
    }
    let fields = seq![red, green, blue];
    assert forall|k: int, i: int|
        0 <= k < fields.len() && 0 <= i < fields[k].len() implies #[trigger] fields[k][i]
        != ' ' by {}
    lemma_split_terminated(fields, ' ');
    reveal_with_fuel(terminated, 4);
    assert(fields.drop_last() =~= seq![red, green]);
    assert(fields.drop_last().drop_last() =~= seq![red]);
    assert(fields.drop_last().drop_last().drop_last() =~= Seq::<Seq<char>>::empty());
    assert(terminated(fields, ' ') =~= pixel.triple().push(' '));
    assert(pixel.triple().push(' ').drop_last() =~= pixel.triple());
    assert(split(pixel.triple(), ' ').push(Seq::empty()) == fields.push(Seq::empty()));
    assert(split(pixel.triple(), ' ') =~= fields.push(Seq::empty()).drop_last());
    assert(fields.push(Seq::empty()).drop_last() =~= fields);
}

/// What a reader of the stream finds: the text splits at its newlines into
/// the magic line, the dimensions, the channel limit and exactly
/// `width * height` pixel lines, each of them three numbers up to 255
/// separated by single spaces; nothing follows the last newline.
pub proof fn lemma_image_reads_back(width: nat, height: nat, pixels: Seq<Rgb>)
    requires
        pixels.len() == width * height,
    ensures
        split(image(width, height, pixels), '\n') == image_lines(width, height, pixels).push(
            Seq::empty(),
        ),
        image_lines(width, height, pixels).len() == 3 + width * height,
        image_lines(width, height, pixels)[0] == magic(),
        image_lines(width, height, pixels)[1] == dimensions(width, height),
        image_lines(width, height, pixels)[2] == channel_limit(),
        split(dimensions(width, height), ' ') == seq![decimal(width), decimal(height)],
        value(decimal(width)) == width,
        value(decimal(height)) == height,
        forall|k: int|
            0 <= k < width * height ==> split(
                #[trigger] image_lines(width, height, pixels)[3 + k],
                ' ',
            ) == seq![
                decimal(pixels[k].red as nat),
                decimal(pixels[k].green as nat),
                decimal(pixels[k].blue as nat),
            ],
{
    let lines = image_lines(width, height, pixels);
    lemma_decimal_reads_back(width);
    lemma_decimal_reads_back(height);
    let across = decimal(width);
    let down = decimal(height);
    assert forall|i: int| 0 <= i < across.len() implies across[i] != ' ' && across[i] != '\n' by {
        lemma_digit_is_no_separator(across[i]);
    }
    assert forall|i: int| 0 <= i < down.len() implies down[i] != ' ' && down[i] != '\n' by {
        lemma_digit_is_no_separator(down[i]);
    }
    assert forall|k: int, i: int|
        0 <= k < lines.len() && 0 <= i < lines[k].len() implies #[trigger] lines[k][i]
        != '\n' by {
        if k >= 3 {
            lemma_triple_reads_back(pixels[k - 3]);
            assert(lines[k] == pixels[k - 3].triple());
        }
    }
    lemma_split_terminated(lines, '\n');
    assert forall|k: int| 0 <= k < width * height implies split(
        #[trigger] lines[3 + k],
        ' ',
    ) == seq![
        decimal(pixels[k].red as nat),
        decimal(pixels[k].green as nat),
        decimal(pixels[k].blue as nat),
    ] by {
        lemma_triple_reads_back(pixels[k]);
    }
    let fields = seq![across, down];
    assert forall|k: int, i: int|
        0 <= k < fields.len() && 0 <= i < fields[k].len() implies #[trigger] fields[k][i]
        != ' ' by {}
    lemma_split_terminated(fields, ' ');
    reveal_with_fuel(terminated, 3);
    assert(fields.drop_last() =~= seq![across]);
    assert(fields.drop_last().drop_last() =~= Seq::<Seq<char>>::empty());
    assert(terminated(fields, ' ') =~= dimensions(width, height).push(' '));
    assert(dimensions(width, height).push(' ').drop_last() =~= dimensions(width, height));
    assert(split(dimensions(width, height), ' ') =~= fields.push(Seq::empty()).drop_last());
    assert(fields.push(Seq::empty()).drop_last() =~= fields);
}

} // verus!
