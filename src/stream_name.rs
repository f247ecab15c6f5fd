use vstd::prelude::*;

use crate::text::{split_by, split_on, str_ends_with, str_eq};

verus! {

pub open spec fn ends_with(s: Seq<char>, suffix: Seq<char>) -> bool {
    suffix.len() <= s.len() && s.subrange(s.len() - suffix.len(), s.len() as int) == suffix
}

/// The index of the first space-separated item from `k` on that ends with
/// `Stream` and does not follow a lone `::`; an item `Self` and an item
/// `::` are each skipped once before the flags reset.
pub open spec fn stream_item_index(
    items: Seq<Seq<char>>,
    k: int,
    after_self: bool,
    after_colons: bool,
) -> Option<int>
    decreases items.len() - k,
{
    if k < 0 || k >= items.len() {
        None
    } else if !after_self && items[k] == "Self"@ {
        stream_item_index(items, k + 1, true, after_colons)
    } else if !after_colons && items[k] == "::"@ {
        stream_item_index(items, k + 1, after_self, true)
    } else if !after_colons && ends_with(items[k], "Stream"@) {
        Some(k)
    } else {
        stream_item_index(items, k + 1, false, false)
    }
}

/// The name of the response stream type in the text of a server method
/// (`tonic::Response<Self::NameStream>`), or `None` where there is none.
pub fn find_stream_name(content: &str) -> (r: Option<&str>)
    ensures
        ({
            let items = split_on(content@, ' ');
            match stream_item_index(items, 0, false, false) {
                None => r is None,
                Some(k) => r matches Some(name) && name@ == items[k],
            }
        }),
{
    let items = split_by(content, ' ');
    let ghost views = items@.map_values(|p: &str| p@);
    let mut self_index = false;
    let mut double_dots_index = false;
    let mut i: usize = 0;
    while i < items.len()
        invariant
            i <= items@.len(),
            views == items@.map_values(|p: &str| p@),
            views == split_on(content@, ' '),
            stream_item_index(views, i as int, self_index, double_dots_index)
                == stream_item_index(views, 0, false, false),
        decreases items@.len() - i,
    {
        let item = items[i];
        assert(views[i as int] == item@);
        if !self_index && str_eq(item, "Self") {
            self_index = true;
        } else if !double_dots_index && str_eq(item, "::") {
            double_dots_index = true;
        } else if !double_dots_index && str_ends_with(item, "Stream") {
            return Some(item);
        } else {
            self_index = false;
            double_dots_index = false;
        }
        i = i + 1;
    }
    None
}

} // verus!
