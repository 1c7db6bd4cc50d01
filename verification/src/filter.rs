use vstd::prelude::*;

use crate::text::contains_char;

verus! {

/// Whether an extension pattern already begins with "*.".
pub open spec fn starts_with_glob(ext: Seq<char>) -> bool {
    ext.len() >= 2 && ext[0] == '*' && ext[1] == '.'
}

/// Whether an extension pattern holds a '{' group.
pub open spec fn contains_brace(ext: Seq<char>) -> bool {
    exists|j: int| 0 <= j < ext.len() && ext[j] == '{'
}

/// One line of the dialog filter: the label, a tab, and the pattern, the
/// pattern getting "*." prepended unless it already starts with "*." or
/// holds a '{' group.
pub open spec fn filter_entry_spec(label: Seq<char>, ext: Seq<char>) -> Seq<char> {
    label + seq!['\t'] + (if starts_with_glob(ext) || contains_brace(ext) {
        ext
    } else {
        seq!['*', '.'] + ext
    })
}

/// The filter lines for the pairs of `items`, joined by '\n'; a trailing
/// unpaired item is ignored.
pub open spec fn dialog_filter_spec(items: Seq<Seq<char>>) -> Seq<char>
    decreases items.len(),
{
    if items.len() < 2 {
        Seq::empty()
    } else if items.len() < 4 {
        filter_entry_spec(items[0], items[1])
    } else {
        filter_entry_spec(items[0], items[1]) + seq!['\n'] + dialog_filter_spec(items.skip(2))
    }
}

/// Renders one label-and-pattern pair as a filter line.
fn filter_entry(label: &str, ext: &str) -> (r: String)
    ensures
        r@ == filter_entry_spec(label@, ext@),
{
    let n = ext.unicode_len();
    let keep = (n >= 2 && ext.get_char(0) == '*' && ext.get_char(1) == '.') || contains_char(
        ext,
        '{',
    );
    let mut r = label.to_owned();
    r.append("\t");
    if keep {
        r.append(ext);
    } else {
        r.append("*.");
        r.append(ext);
    }
    proof {
        reveal_strlit("\t");
        reveal_strlit("*.");
        assert("\t"@ =~= seq!['\t']);
        assert("*."@ =~= seq!['*', '.']);
    }
    r
}

/// Renders the filter lines for the pairs of `items` from position `i` on.
fn build_filter_from(items: &Vec<&str>, i: usize) -> (r: String)
    requires
        i <= items@.len(),
    ensures
        r@ == dialog_filter_spec(items.deep_view().skip(i as int)),
    decreases items@.len() - i,
{
    let n = items.len();
    let ghost tail = items.deep_view().skip(i as int);
    if n - i < 2 {
        return String::new();
    }
    proof {
        assert(tail[0] == items@[i as int]@);
        assert(tail[1] == items@[i + 1 as int]@);
    }
    let entry = filter_entry(items[i], items[i + 1]);
    if n - i < 4 {
        return entry;
    }
    let mut r = entry;
    r.append("\n");
    let rest = build_filter_from(items, i + 2);
    r.append(rest.as_str());
    proof {
        reveal_strlit("\n");
        assert("\n"@ =~= seq!['\n']);
        assert(tail.skip(2) =~= items.deep_view().skip(i + 2 as int));
    }
    r
}

/// Builds the filter string for a file-chooser dialog from alternating
/// labels and extension patterns: one `label<TAB>pattern` line per full
/// pair, joined by newlines.  A pattern gets "*." prepended unless it
/// already starts with "*." or holds a '{' group; a trailing unpaired item
/// is silently ignored.
pub fn fltk_build_dialogfltr(labelextns: &Vec<&str>) -> (r: String)
    ensures
        r@ == dialog_filter_spec(labelextns.deep_view()),
{
    let r = build_filter_from(labelextns, 0);
    proof {
        assert(labelextns.deep_view().skip(0) =~= labelextns.deep_view());
    }
    r
}

} // verus!
