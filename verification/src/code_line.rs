use vstd::prelude::*;

use crate::components::row_html;
use crate::components::table_html;
use crate::components::Pre;
use crate::components::Row;
use crate::components::Table;
use crate::components::Text;
use crate::components::ToHtml;
use crate::escape::encoded_text;
use crate::tested_file::line_lookup;
use crate::tested_file::TestedCodeFile;
use crate::text::dec_str;
use crate::text::u64_to_dec_string;

verus! {

/// The source lines of one file, each tinted by its hit count.
pub struct CodeLines {
    pub coverage: Vec<(u32, u64)>,
    pub lines: Vec<String>,
}

/// The class of one line: covered, instrumented but never hit, or not
/// instrumented at all.
pub open spec fn line_class(cov: Option<u64>) -> Seq<char> {
    match cov {
        Option::Some(c) => if c > 0 {
            "line-covered"@
        } else {
            "line-not-covered"@
        },
        Option::None => "line-not-tested"@,
    }
}

/// The text shown for a line's hit count: the count, or nothing for an
/// uninstrumented line.
pub open spec fn count_text(cov: Option<u64>) -> Seq<char> {
    match cov {
        Option::Some(c) => dec_str(c as nat),
        Option::None => Seq::empty(),
    }
}

/// The zero-based index reduced to the lookup key's range.
pub open spec fn key_of(i: nat) -> u32 {
    (i % 0x1_0000_0000) as u32
}

/// The row for one source line. As in the coverage data model the first
/// column shows the one-based line number, while the hit count is looked up
/// by the zero-based index.
pub open spec fn line_row(coverage: Seq<(u32, u64)>, line: Seq<char>, i: nat) -> Seq<char> {
    let cov = line_lookup(coverage, key_of(i));
    row_html(
        seq![line_class(cov)],
        "<td>"@ + encoded_text(dec_str(i + 1)) + "</td>"@ + "<td>"@ + encoded_text(
            count_text(cov),
        ) + "</td>"@ + "<td>"@ + crate::components::pre_html(line) + "</td>"@,
    )
}

/// The rows of the whole file.
pub open spec fn line_rows(coverage: Seq<(u32, u64)>, lines: Seq<Seq<char>>, n: nat) -> Seq<char>
    decreases n,
{
    if n == 0 {
        Seq::empty()
    } else {
        line_rows(coverage, lines, (n - 1) as nat) + line_row(
            coverage,
            lines[n - 1],
            (n - 1) as nat,
        )
    }
}

/// The whole table.
pub open spec fn code_lines_html(coverage: Seq<(u32, u64)>, lines: Seq<Seq<char>>) -> Seq<char> {
    table_html(line_rows(coverage, lines, lines.len()))
}

impl CodeLines {
    /// Pairs a file's per-line hit counts with its source lines.
    pub fn new(file: &TestedCodeFile, lines: Vec<String>) -> (r: Self)
        ensures
            r.coverage.deep_view() == file.lines.deep_view(),
            r.lines == lines,
    {
        let mut coverage: Vec<(u32, u64)> = Vec::new();
        let mut i: usize = 0;
        proof {
            assert(coverage.deep_view() =~= file.lines.deep_view().take(0));
        }
        while i < file.lines.len()
            invariant
                i <= file.lines@.len(),
                coverage.deep_view() == file.lines.deep_view().take(i as int),
            decreases file.lines@.len() - i,
        {
            let ghost before = coverage.deep_view();
            coverage.push(file.lines[i]);
            i = i + 1;
            proof {
                assert(coverage.deep_view() =~= before.push(file.lines.deep_view()[i - 1]));
                assert(coverage.deep_view() =~= file.lines.deep_view().take(i as int));
            }
        }
        proof {
            assert(file.lines.deep_view().take(file.lines@.len() as int)
                =~= file.lines.deep_view());
        }
        CodeLines { coverage, lines }
    }

    /// The row for the source line at a zero-based index.
    fn render_line(&self, line_number: usize) -> (r: Row)
        requires
            line_number < self.lines@.len(),
            line_number < usize::MAX,
        ensures
            r.html() == line_row(
                self.coverage.deep_view(),
                self.lines@[line_number as int]@,
                line_number as nat,
            ),
    {
        let key64: u64 = (line_number as u64) % 0x1_0000_0000u64;
        let key = key64 as u32;
        proof {
            assert(key == key_of(line_number as nat));
        }
        let coverage = lookup_line(&self.coverage, key);
        let class = match coverage {
            Some(c) => if c > 0 {
                "line-covered"
            } else {
                "line-not-covered"
            },
            None => "line-not-tested",
        };
        let count = match coverage {
            Some(c) => u64_to_dec_string(c),
            None => String::new(),
        };
        let number = u64_to_dec_string(line_number as u64 + 1);
        let r = Row::new().with_class(class).with_cell(Text::new(number.as_str())).with_cell(
            Text::new(count.as_str()),
        ).with_cell(Pre::new(self.lines[line_number].as_str()));
        proof {
            reveal_strlit("line-covered");
            reveal_strlit("line-not-covered");
            reveal_strlit("line-not-tested");
            let cov = line_lookup(self.coverage.deep_view(), key_of(line_number as nat));
            assert(Seq::<Seq<char>>::empty().push(line_class(cov)) =~= seq![line_class(cov)]);
            assert(r.html() =~= line_row(
                self.coverage.deep_view(),
                self.lines@[line_number as int]@,
                line_number as nat,
            ));
        }
        r
    }
}

impl ToHtml for CodeLines {
    open spec fn html(&self) -> Seq<char> {
        code_lines_html(self.coverage.deep_view(), self.lines.deep_view())
    }

    fn to_html(&self) -> (r: String)
        ensures
            r@ == self.html(),
    {
        let mut rows = String::new();
        let mut i: usize = 0;
        let ghost cov = self.coverage.deep_view();
        let ghost lns = self.lines.deep_view();
        proof {
            assert(rows@ =~= line_rows(cov, lns, 0));
        }
        while i < self.lines.len()
            invariant
                i <= self.lines@.len(),
                cov == self.coverage.deep_view(),
                lns == self.lines.deep_view(),
                lns.len() == self.lines@.len(),
                rows@ == line_rows(cov, lns, i as nat),
            decreases self.lines@.len() - i,
        {
            let row = self.render_line(i);
            rows.append(row.to_html().as_str());
            i = i + 1;
            proof {
                assert(rows@ =~= line_rows(cov, lns, i as nat));
            }
        }
        let table = Table { rows_html: rows };
        let r = table.to_html();
        proof {
            assert(r@ =~= code_lines_html(cov, lns));
        }
        r
    }
}

/// The hit count of the first coverage entry for a line number.
fn lookup_line(coverage: &Vec<(u32, u64)>, line: u32) -> (r: Option<u64>)
    ensures
        r == line_lookup(coverage.deep_view(), line),
{
    let mut i: usize = 0;
    proof {
        assert(coverage.deep_view().skip(0) =~= coverage.deep_view());
    }
    while i < coverage.len()
        invariant
            i <= coverage@.len(),
            coverage.deep_view().len() == coverage@.len(),
            line_lookup(coverage.deep_view(), line) == line_lookup(
                coverage.deep_view().skip(i as int),
                line,
            ),
        decreases coverage@.len() - i,
    {
        proof {
            let s = coverage.deep_view().skip(i as int);
            assert(s[0] == coverage.deep_view()[i as int]);
            assert(s.drop_first() =~= coverage.deep_view().skip(i + 1));
        }
        if coverage[i].0 == line {
            return Some(coverage[i].1);
        }
        i = i + 1;
    }
    proof {
        assert(coverage.deep_view().skip(coverage@.len() as int).len() == 0);
    }
    None
}

} // verus!
