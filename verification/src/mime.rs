//! The table that gives a file extension its content type.

use vstd::prelude::*;
use crate::text::{chars_of, copy_of, same_text};

verus! {

/// One line of the table, as characters.
pub struct MimeLine {
    pub extension: Seq<char>,
    pub content_type: Seq<char>,
}

/// The line that gives `extension` the content type `content_type`.
pub open spec fn line(extension: Seq<char>, content_type: Seq<char>) -> MimeLine {
    MimeLine { extension, content_type }
}

/// The content type that the lines give `extension`: that of the last line
/// for it.
pub open spec fn content_type(lines: Seq<MimeLine>, extension: Seq<char>) -> Option<Seq<char>>
    decreases lines.len(),
{
    if lines.len() == 0 {
        None
    } else if lines.last().extension == extension {
        Some(lines.last().content_type)
    } else {
        content_type(lines.drop_last(), extension)
    }
}

/// One line of the table.
pub struct Line {
    extension: Vec<char>,
    content_type: Vec<char>,
}

impl View for Line {
    type V = MimeLine;

    closed spec fn view(&self) -> MimeLine {
        MimeLine { extension: self.extension@, content_type: self.content_type@ }
    }
}

/// The table: extensions without their dot, and the content type of each.
/// An extension in it marks a resource as binary.
pub struct MimeTable {
    lines: Vec<Line>,
}

impl View for MimeTable {
    type V = Seq<MimeLine>;

    closed spec fn view(&self) -> Seq<MimeLine> {
        self.lines@.map_values(|line: Line| line@)
    }
}

impl MimeTable {
    /// The table without lines.
    pub fn new() -> (table: MimeTable)
        ensures
            table@ == Seq::<MimeLine>::empty(),
    {
        let table = MimeTable { lines: Vec::new() };
        assert(table@ =~= Seq::<MimeLine>::empty());
        table
    }

    /// Adds a line. It goes before the earlier lines for `extension`.
    pub fn insert(&mut self, extension: &str, content_type: &str)
        ensures
            final(self)@ == old(self)@.push(line(extension@, content_type@)),
    {
        let added = Line { extension: chars_of(extension), content_type: chars_of(content_type) };
        self.lines.push(added);
        assert(self@ =~= old(self)@.push(line(extension@, content_type@)));
    }

    /// The content type of `extension`, if the table has it.
    pub fn lookup(&self, extension: &Vec<char>) -> (found: Option<Vec<char>>)
        ensures
            found is Some == content_type(self@, extension@) is Some,
            found is Some ==> found->0@ == content_type(self@, extension@)->0,
    {
        let mut n: usize = self.lines.len();
        assert(self@.take(n as int) == self@);
        while n > 0
            invariant
                n <= self.lines.len(),
                content_type(self@, extension@) == content_type(self@.take(n as int), extension@),
            decreases n,
        {
            assert(self@.take(n as int).drop_last() == self@.take(n - 1));
            assert(self@.take(n as int).last() == self.lines@[n - 1]@);
            if same_text(&self.lines[n - 1].extension, extension) {
                return Some(copy_of(&self.lines[n - 1].content_type));
            }
            n -= 1;
        }
        None
    }

    /// The content type of `extension`, if the table has it.
    pub fn get(&self, extension: &str) -> (found: Option<String>)
        ensures
            found is Some == content_type(self@, extension@) is Some,
            found is Some ==> found->0@ == content_type(self@, extension@)->0,
    {
        match self.lookup(&chars_of(extension)) {
            Some(found) => Some(crate::text::text_of(&found)),
            None => None,
        }
    }
}

} // verus!
