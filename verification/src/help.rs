//! The help pages of the site: a tree of pages and menus, the menu shown
//! on every page, and the pages to generate.

use vstd::prelude::*;

verus! {

/// An entry of the help menu, with the entries under it.
pub struct MenuItem {
    pub name: String,
    pub path: String,
    pub children: Vec<MenuItem>,
}

/// The tree of help pages: a page made from a Markdown source file, or a
/// menu of further items.
pub enum TreeItem {
    Item { name: String, path: String, src_file: String },
    Menu { name: String, path: String, items: Vec<TreeItem> },
}

/// `m` is the menu entry of `t`: the same name and path, no children for a
/// page, and for a menu the entries of its items, in order.
pub open spec fn spec_menu_of(m: MenuItem, t: TreeItem) -> bool
    decreases t,
{
    match t {
        TreeItem::Item { name, path, .. } => {
            &&& m.name@ == name@
            &&& m.path@ == path@
            &&& m.children@.len() == 0
        },
        TreeItem::Menu { name, path, items } => {
            &&& m.name@ == name@
            &&& m.path@ == path@
            &&& m.children@.len() == items@.len()
            &&& forall|i: int|
                0 <= i < items@.len() ==> spec_menu_of(#[trigger] m.children@[i], items@[i])
        },
    }
}

/// The menu entry of a tree item.
pub fn conv(tree: &TreeItem) -> (r: MenuItem)
    ensures
        spec_menu_of(r, *tree),
    decreases tree,
{
    match tree {
        TreeItem::Item { name, path, .. } => MenuItem {
            name: name.clone(),
            path: path.clone(),
            children: Vec::new(),
        },
        TreeItem::Menu { name, path, items } => {
            let mut children: Vec<MenuItem> = Vec::new();
            let mut i: usize = 0;
            while i < items.len()
                invariant
                    i <= items@.len(),
                    (*tree matches TreeItem::Menu { items: it, .. } && it == *items),
                    children@.len() == i,
                    forall|j: int| 0 <= j < i ==> spec_menu_of(#[trigger] children@[j], items@[j]),
                decreases items@.len() - i,
            {
                proof {
                    assert(decreases_to!(*tree => items@[i as int]));
                }
                let child = conv(&items[i]);
                children.push(child);
                i = i + 1;
            }
            MenuItem { name: name.clone(), path: path.clone(), children }
        },
    }
}

/// The menu of a whole tree: the entry of each top-level item.
pub fn menu_items(tree: &Vec<TreeItem>) -> (r: Vec<MenuItem>)
    ensures
        r@.len() == tree@.len(),
        forall|i: int| 0 <= i < tree@.len() ==> spec_menu_of(#[trigger] r@[i], tree@[i]),
{
    let mut r: Vec<MenuItem> = Vec::new();
    let mut i: usize = 0;
    while i < tree.len()
        invariant
            i <= tree@.len(),
            r@.len() == i,
            forall|j: int| 0 <= j < i ==> spec_menu_of(#[trigger] r@[j], tree@[j]),
        decreases tree@.len() - i,
    {
        r.push(conv(&tree[i]));
        i = i + 1;
    }
    r
}

/// A page to generate: where it goes, below the output directory, and the
/// Markdown file it is made from, below the tree's directory.
pub struct HelpPage {
    pub path: String,
    pub src_file: String,
}

/// The pages of a tree item, depth first: a page is itself, a menu is the
/// pages of its items in order.
pub open spec fn spec_pages(t: TreeItem) -> Seq<(Seq<char>, Seq<char>)>
    decreases t,
{
    match t {
        TreeItem::Item { path, src_file, .. } => seq![(path@, src_file@)],
        TreeItem::Menu { items, .. } => spec_pages_of(items@),
    }
}

/// The pages of a list of tree items, one item after the other.
pub open spec fn spec_pages_of(items: Seq<TreeItem>) -> Seq<(Seq<char>, Seq<char>)>
    decreases items,
{
    if items.len() == 0 {
        Seq::empty()
    } else {
        spec_pages_of(items.drop_last()) + spec_pages(items.last())
    }
}

/// The views of help pages.
pub open spec fn spec_page_views(s: Seq<HelpPage>) -> Seq<(Seq<char>, Seq<char>)> {
    s.map_values(|p: HelpPage| (p.path@, p.src_file@))
}

/// Appends the pages of a tree item to `out`.
fn push_pages(item: &TreeItem, out: &mut Vec<HelpPage>)
    ensures
        spec_page_views(final(out)@) == spec_page_views(old(out)@) + spec_pages(*item),
    decreases item,
{
    match item {
        TreeItem::Item { path, src_file, .. } => {
            out.push(HelpPage { path: path.clone(), src_file: src_file.clone() });
            assert(spec_page_views(out@) =~= spec_page_views(old(out)@) + spec_pages(*item));
        },
        TreeItem::Menu { items, .. } => {
            let mut i: usize = 0;
            while i < items.len()
                invariant
                    i <= items@.len(),
                    (*item matches TreeItem::Menu { items: it, .. } && it == *items),
                    spec_page_views(out@) == spec_page_views(old(out)@) + spec_pages_of(
                        items@.take(i as int),
                    ),
                decreases items@.len() - i,
            {
                proof {
                    assert(decreases_to!(*item => items@[i as int]));
                }
                push_pages(&items[i], out);
                proof {
                    assert(items@.take(i + 1).drop_last() =~= items@.take(i as int));
                    assert(items@.take(i + 1).last() == items@[i as int]);
                    assert(spec_page_views(out@) =~= spec_page_views(old(out)@) + spec_pages_of(
                        items@.take(i + 1),
                    ));
                }
                i = i + 1;
            }
            assert(items@.take(i as int) =~= items@);
        },
    }
}

/// The HTML that comrak's `markdown_to_html` makes of the Markdown `md`
/// with the default options.
pub uninterp spec fn spec_markdown_html(md: Seq<char>) -> Seq<char>;

/// `comrak::markdown_to_html` with `Options::default()`: its result is
/// named by `spec_markdown_html` of the Markdown text.
#[verifier::external_body]
fn comrak_markdown_to_html(md: &str) -> (r: String)
    ensures
        r@ == spec_markdown_html(md@),
{
    comrak::markdown_to_html(md, &comrak::Options::default())
}

/// The HTML content of a help page made from the Markdown text `md`.
pub fn page_html(md: &str) -> (r: String)
    ensures
        r@ == spec_markdown_html(md@),
{
    comrak_markdown_to_html(md)
}

/// The pages to generate for a tree, depth first.
pub fn help_pages(tree: &Vec<TreeItem>) -> (r: Vec<HelpPage>)
    ensures
        spec_page_views(r@) == spec_pages_of(tree@),
{
    let mut r: Vec<HelpPage> = Vec::new();
    let mut i: usize = 0;
    while i < tree.len()
        invariant
            i <= tree@.len(),
            spec_page_views(r@) == spec_pages_of(tree@.take(i as int)),
        decreases tree@.len() - i,
    {
        push_pages(&tree[i], &mut r);
        proof {
            assert(tree@.take(i + 1).drop_last() =~= tree@.take(i as int));
            assert(tree@.take(i + 1).last() == tree@[i as int]);
        }
        i = i + 1;
    }
    assert(tree@.take(i as int) =~= tree@);
    r
}

} // verus!
