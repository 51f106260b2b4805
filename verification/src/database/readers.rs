//! From the catalog to the flat store.
//!
//! Neither a file nor a number is read here. The functions take two readers:
//! `read` is handed the path of a material file and answers with the
//! material, or with `None` if the file cannot be read or is no material
//! file; `number` is handed one token and answers with the number, or with
//! `None`. The contracts say what is returned for whatever the readers
//! answer.
use vstd::prelude::*;
use vstd::string::StringExecFns;
use std::path::PathBuf;
use crate::database::catalog::{BookContent, Shelf, ShelfContent};
use crate::database::material::Material;
use crate::database::parsers::{material_outcome, parse_material, ParseError};
use crate::number::Number;
use crate::store::Store;
use crate::text::{decimal, decimal_string};

verus! {

/// One page of the catalog, with the names above it.
#[derive(Debug)]
pub struct Page<'a> {
    /// The composite key of the page.
    pub key: String,
    /// The name of the shelf.
    pub shelf: &'a str,
    /// The name of the book.
    pub book: &'a str,
    /// The name of the page.
    pub name: &'a str,
    /// The path of the material file.
    pub data: &'a PathBuf,
}

/// A page of the catalog, as contracts speak of it.
pub struct PageView {
    pub key: Seq<char>,
    pub shelf: Seq<char>,
    pub book: Seq<char>,
    pub name: Seq<char>,
    pub data: PathBuf,
}

impl<'a> View for Page<'a> {
    type V = PageView;

    open spec fn view(&self) -> PageView {
        PageView {
            key: self.key@,
            shelf: self.shelf@,
            book: self.book@,
            name: self.name@,
            data: *self.data,
        }
    }
}

/// The view of each page.
pub open spec fn page_views(pages: Seq<Page>) -> Seq<PageView> {
    Seq::new(pages.len(), |i: int| pages[i]@)
}

/// The key of a page in the store: the keys of its shelf, of its book and
/// of itself, with a colon between.
pub open spec fn composite_key(shelf: Seq<char>, book: Seq<char>, page: Seq<char>) -> Seq<char> {
    shelf + seq![':'] + book + seq![':'] + page
}

/// The pages that one item of a book contributes: a divider none, a page
/// itself. A key that the catalog wrote as a number is the number in decimal.
pub open spec fn entry_pages(
    shelf_key: Seq<char>,
    shelf_name: Seq<char>,
    book_key: Seq<char>,
    book_name: Seq<char>,
    entry: BookContent,
) -> Seq<PageView> {
    match entry {
        BookContent::Divider { .. } => Seq::empty(),
        BookContent::Page { page, name, data } => seq![
            PageView {
                key: composite_key(shelf_key, book_key, page@),
                shelf: shelf_name,
                book: book_name,
                name: name@,
                data,
            },
        ],
        BookContent::PageNumberName { page, name, data } => seq![
            PageView {
                key: composite_key(shelf_key, book_key, decimal(page as nat)),
                shelf: shelf_name,
                book: book_name,
                name: name@,
                data,
            },
        ],
    }
}

/// The pages of a book, in order.
pub open spec fn book_pages(
    shelf_key: Seq<char>,
    shelf_name: Seq<char>,
    book_key: Seq<char>,
    book_name: Seq<char>,
    content: Seq<BookContent>,
) -> Seq<PageView>
    decreases content.len(),
{
    if content.len() == 0 {
        Seq::empty()
    } else {
        book_pages(shelf_key, shelf_name, book_key, book_name, content.drop_last()) + entry_pages(
            shelf_key,
            shelf_name,
            book_key,
            book_name,
            content.last(),
        )
    }
}

/// The pages that one item of a shelf contributes: a divider none, a book
/// its pages.
pub open spec fn item_pages(shelf_key: Seq<char>, shelf_name: Seq<char>, item: ShelfContent) -> Seq<
    PageView,
> {
    match item {
        ShelfContent::Divider { .. } => Seq::empty(),
        ShelfContent::Book { book, name, content, .. } => book_pages(
            shelf_key,
            shelf_name,
            book@,
            name@,
            content@,
        ),
    }
}

/// The pages of a shelf, in order.
pub open spec fn shelf_pages(
    shelf_key: Seq<char>,
    shelf_name: Seq<char>,
    content: Seq<ShelfContent>,
) -> Seq<PageView>
    decreases content.len(),
{
    if content.len() == 0 {
        Seq::empty()
    } else {
        shelf_pages(shelf_key, shelf_name, content.drop_last()) + item_pages(
            shelf_key,
            shelf_name,
            content.last(),
        )
    }
}

/// The pages of a catalog, in the order of the document.
pub open spec fn catalog_pages(catalog: Seq<Shelf>) -> Seq<PageView>
    decreases catalog.len(),
{
    if catalog.len() == 0 {
        Seq::empty()
    } else {
        catalog_pages(catalog.drop_last()) + shelf_pages(
            catalog.last().shelf@,
            catalog.last().name@,
            catalog.last().content@,
        )
    }
}

/// The store that the pages leave, each with its item or with none: the
/// items are inserted in order under the keys of their pages, so that of two
/// with one key the later stays.
pub open spec fn collect(pages: Seq<PageView>, items: Seq<Option<crate::store::Material>>) -> Map<
    Seq<char>,
    crate::store::Material,
>
    decreases pages.len(),
{
    if pages.len() == 0 {
        Map::empty()
    } else {
        let before = collect(pages.drop_last(), items.drop_last());
        match items.last() {
            Some(item) => before.insert(pages.last().key, item),
            None => before,
        }
    }
}

/// What a page resolves to when its material file is converted with the
/// result `parsed`: its item, or nothing after an error.
pub open spec fn kept(parsed: Result<crate::store::Material, ParseError>) -> Option<
    crate::store::Material,
> {
    match parsed {
        Ok(item) => Some(item),
        Err(_) => None,
    }
}

/// Whether a page may resolve to `r` once `read` has answered: to nothing,
/// if the answer is none; else to what converting the material leaves.
pub open spec fn answer_outcome<N: Fn(&str) -> Option<Number>>(
    number: &N,
    page: PageView,
    answer: Option<Material>,
    r: Option<crate::store::Material>,
) -> bool {
    match answer {
        None => r is None,
        Some(material) => exists|parsed: Result<crate::store::Material, ParseError>|
            #[trigger] material_outcome(number, material, page.shelf, page.book, page.name, parsed)
                && r == kept(parsed),
    }
}

/// Whether resolving the page may end in `r`: `read` is handed the path of
/// the material file, and its answer decides as `answer_outcome` says.
pub open spec fn page_outcome<R: Fn(&PathBuf) -> Option<Material>, N: Fn(&str) -> Option<Number>>(
    read: &R,
    number: &N,
    page: PageView,
    r: Option<crate::store::Material>,
) -> bool {
    exists|answer: Option<Material>|
        call_ensures(read, (&page.data,), answer) && #[trigger] answer_outcome(
            number,
            page,
            answer,
            r,
        )
}

/// Whether flattening the pages may leave the store `store`, with `items`
/// for what the pages resolved to.
pub open spec fn flattens<R: Fn(&PathBuf) -> Option<Material>, N: Fn(&str) -> Option<Number>>(
    read: &R,
    number: &N,
    pages: Seq<PageView>,
    items: Seq<Option<crate::store::Material>>,
    store: Map<Seq<char>, crate::store::Material>,
) -> bool {
    &&& items.len() == pages.len()
    &&& forall|i: int| 0 <= i < pages.len() ==> page_outcome(read, number, pages[i], #[trigger] items[i])
    &&& store == collect(pages, items)
}

/// A page whose key is a number is listed as the page whose key is that
/// number in decimal.
pub proof fn lemma_number_key(
    shelf_key: Seq<char>,
    shelf_name: Seq<char>,
    book_key: Seq<char>,
    book_name: Seq<char>,
    page: u64,
    key: String,
    name: String,
    data: PathBuf,
)
    requires
        key@ == decimal(page as nat),
    ensures
        entry_pages(
            shelf_key,
            shelf_name,
            book_key,
            book_name,
            BookContent::PageNumberName { page, name, data },
        ) == entry_pages(
            shelf_key,
            shelf_name,
            book_key,
            book_name,
            BookContent::Page { page: key, name, data },
        ),
{
}

/// A divider among the items of a book changes nothing in its pages.
pub proof fn lemma_divider_adds_nothing(
    shelf_key: Seq<char>,
    shelf_name: Seq<char>,
    book_key: Seq<char>,
    book_name: Seq<char>,
    content: Seq<BookContent>,
    divider: String,
)
    ensures
        book_pages(
            shelf_key,
            shelf_name,
            book_key,
            book_name,
            content.push(BookContent::Divider { divider }),
        ) == book_pages(shelf_key, shelf_name, book_key, book_name, content),
{
    let more = content.push(BookContent::Divider { divider });
    assert(more.drop_last() == content);
}

/// A divider among the items of a shelf changes nothing in its pages.
pub proof fn lemma_shelf_divider_adds_nothing(
    shelf_key: Seq<char>,
    shelf_name: Seq<char>,
    content: Seq<ShelfContent>,
    divider: String,
)
    ensures
        shelf_pages(shelf_key, shelf_name, content.push(ShelfContent::Divider { divider }))
            == shelf_pages(shelf_key, shelf_name, content),
{
    let more = content.push(ShelfContent::Divider { divider });
    assert(more.drop_last() == content);
}

/// Every key that the pages leave in the store is the key of one of them
/// that has an item, and the last such page gives the item.
pub proof fn lemma_collect(
    pages: Seq<PageView>,
    items: Seq<Option<crate::store::Material>>,
    key: Seq<char>,
)
    requires
        items.len() == pages.len(),
    ensures
        collect(pages, items).contains_key(key) <==> exists|i: int|
            0 <= i < pages.len() && #[trigger] pages[i].key == key && items[i] is Some,
        collect(pages, items).contains_key(key) ==> exists|i: int|
            {
                &&& 0 <= i < pages.len()
                &&& #[trigger] pages[i].key == key
                &&& items[i] == Some(collect(pages, items)[key])
                &&& forall|j: int| i < j < pages.len() && pages[j].key == key ==> items[j] is None
            },
    decreases pages.len(),
{
    if pages.len() > 0 {
        let last = pages.len() - 1;
        let front = pages.drop_last();
        let front_items = items.drop_last();
        lemma_collect(front, front_items, key);
        if pages[last].key == key && items[last] is Some {
            assert(collect(pages, items).contains_key(key));
        } else if collect(front, front_items).contains_key(key) {
            let i = choose|i: int|
                {
                    &&& 0 <= i < front.len()
                    &&& #[trigger] front[i].key == key
                    &&& front_items[i] == Some(collect(front, front_items)[key])
                    &&& forall|j: int|
                        i < j < front.len() && front[j].key == key ==> front_items[j] is None
                };
            assert(pages[i].key == key && items[i] is Some);
            assert(items[i] == Some(collect(pages, items)[key]));
            assert forall|j: int| i < j < pages.len() && pages[j].key == key implies items[j]
                is None by {
                if j < last {
                    assert(front[j].key == key);
                    assert(front_items[j] == items[j]);
                }
            }
        } else {
            assert forall|i: int| 0 <= i < pages.len() && pages[i].key == key implies !(items[i]
                is Some) by {
                if i < last {
                    assert(front[i].key == key);
                    assert(front_items[i] == items[i]);
                }
            }
        }
    }
}

/// The composite key of a page.
pub fn make_key(shelf: &str, book: &str, page: &str) -> (key: String)
    ensures
        key@ == composite_key(shelf@, book@, page@),
{
    proof {
        reveal_strlit(":");
    }
    let mut key = String::from_str(shelf);
    key.append(":");
    key.append(book);
    key.append(":");
    key.append(page);
    assert(key@ =~= composite_key(shelf@, book@, page@));
    key
}

/// Appends the pages of a book.
fn push_book_pages<'a>(
    out: &mut Vec<Page<'a>>,
    shelf_key: &'a str,
    shelf_name: &'a str,
    book_key: &'a str,
    book_name: &'a str,
    content: &'a Vec<BookContent>,
)
    ensures
        page_views(final(out)@) == page_views(old(out)@) + book_pages(
            shelf_key@,
            shelf_name@,
            book_key@,
            book_name@,
            content@,
        ),
{
    let ghost start = page_views(out@);
    let mut i: usize = 0;
    assert(content@.take(0) == Seq::<BookContent>::empty());
    assert(page_views(out@) == start + Seq::<PageView>::empty());
    while i < content.len()
        invariant
            i <= content.len(),
            page_views(out@) == start + book_pages(
                shelf_key@,
                shelf_name@,
                book_key@,
                book_name@,
                content@.take(i as int),
            ),
        decreases content.len() - i,
    {
        let ghost before = page_views(out@);
        let ghost prefix = content@.take(i as int);
        let ghost next = content@.take(i + 1);
        assert(next.drop_last() == prefix);
        assert(next.last() == content@[i as int]);
        match &content[i] {
            BookContent::Divider { .. } => {
                assert(page_views(out@) == before + Seq::<PageView>::empty());
            },
            BookContent::Page { page, name, data } => {
                let key = make_key(shelf_key, book_key, page.as_str());
                out.push(Page { key, shelf: shelf_name, book: book_name, name: name.as_str(), data });
                assert(page_views(out@) == before + entry_pages(
                    shelf_key@,
                    shelf_name@,
                    book_key@,
                    book_name@,
                    content@[i as int],
                ));
            },
            BookContent::PageNumberName { page, name, data } => {
                let number = decimal_string(*page);
                let key = make_key(shelf_key, book_key, number.as_str());
                out.push(Page { key, shelf: shelf_name, book: book_name, name: name.as_str(), data });
                assert(page_views(out@) == before + entry_pages(
                    shelf_key@,
                    shelf_name@,
                    book_key@,
                    book_name@,
                    content@[i as int],
                ));
            },
        }
        i += 1;
    }
    assert(content@.take(content.len() as int) == content@);
}

/// Appends the pages of a shelf.
fn push_shelf_pages<'a>(out: &mut Vec<Page<'a>>, shelf: &'a Shelf)
    ensures
        page_views(final(out)@) == page_views(old(out)@) + shelf_pages(
            shelf.shelf@,
            shelf.name@,
            shelf.content@,
        ),
{
    let ghost start = page_views(out@);
    let content = &shelf.content;
    let mut i: usize = 0;
    assert(content@.take(0) == Seq::<ShelfContent>::empty());
    assert(page_views(out@) == start + Seq::<PageView>::empty());
    while i < content.len()
        invariant
            content == &shelf.content,
            i <= content.len(),
            page_views(out@) == start + shelf_pages(
                shelf.shelf@,
                shelf.name@,
                content@.take(i as int),
            ),
        decreases content.len() - i,
    {
        let ghost before = page_views(out@);
        let ghost prefix = content@.take(i as int);
        let ghost next = content@.take(i + 1);
        assert(next.drop_last() == prefix);
        assert(next.last() == content@[i as int]);
        match &content[i] {
            ShelfContent::Divider { .. } => {
                assert(page_views(out@) == before + Seq::<PageView>::empty());
            },
            ShelfContent::Book { book, name, content: pages, .. } => {
                push_book_pages(
                    out,
                    shelf.shelf.as_str(),
                    shelf.name.as_str(),
                    book.as_str(),
                    name.as_str(),
                    pages,
                );
            },
        }
        i += 1;
    }
    assert(content@.take(content.len() as int) == content@);
}

/// The pages of the catalog, in the order of the document, each with its
/// composite key and with the names of its shelf and of its book. Dividers
/// contribute nothing.
pub fn pages<'a>(catalog: &'a Vec<Shelf>) -> (out: Vec<Page<'a>>)
    ensures
        page_views(out@) == catalog_pages(catalog@),
{
    let mut out: Vec<Page<'a>> = Vec::new();
    let mut i: usize = 0;
    assert(catalog@.take(0) == Seq::<Shelf>::empty());
    assert(page_views(out@) == Seq::<PageView>::empty());
    while i < catalog.len()
        invariant
            i <= catalog.len(),
            page_views(out@) == catalog_pages(catalog@.take(i as int)),
        decreases catalog.len() - i,
    {
        let ghost next = catalog@.take(i + 1);
        assert(next.drop_last() == catalog@.take(i as int));
        assert(next.last() == catalog@[i as int]);
        push_shelf_pages(&mut out, &catalog[i]);
        i += 1;
    }
    assert(catalog@.take(catalog.len() as int) == catalog@);
    out
}

/// Resolves one page to its item: reads its material file and converts its
/// entries. A page whose file is not read, or with an entry that is not
/// converted, has no item.
pub fn resolve<R: Fn(&PathBuf) -> Option<Material>, N: Fn(&str) -> Option<Number>>(
    page: &Page,
    read: &R,
    number: &N,
) -> (r: Option<crate::store::Material>)
    requires
        forall|p: &PathBuf| call_requires(read, (p,)),
        forall|t: &str| call_requires(number, (t,)),
    ensures
        page_outcome(read, number, page@, r),
{
    let answer = read(page.data);
    let ghost given = answer;
    let r = match answer {
        None => None,
        Some(material) => {
            let parsed = parse_material(material, page.shelf, page.book, page.name, number);
            assert(material_outcome(number, material, page@.shelf, page@.book, page@.name, parsed));
            match parsed {
                Ok(item) => Some(item),
                Err(_) => None,
            }
        },
    };
    assert(answer_outcome(number, page@, given, r));
    r
}

impl Store {
    /// Inserts the items under the keys of their pages, in order. A page
    /// without an item is passed over.
    pub fn assemble(pages: &Vec<Page>, items: Vec<Option<crate::store::Material>>) -> (store: Store)
        requires
            items.len() == pages.len(),
        ensures
            store@ == collect(page_views(pages@), items@),
    {
        let ghost all = items@;
        let mut store = Store::new();
        let it = items.into_iter();
        let mut index: usize = 0;
        assert(page_views(pages@).take(0) == Seq::<PageView>::empty());
        for item in iter: it
            invariant
                iter.seq() == all,
                all.len() == pages.len(),
                index == iter.index(),
                store@ == collect(
                    page_views(pages@).take(iter.index() as int),
                    all.take(iter.index() as int),
                ),
        {
            let ghost i = iter.index() as int;
            let ghost views = page_views(pages@);
            assert(views.take(i + 1).drop_last() == views.take(i));
            assert(all.take(i + 1).drop_last() == all.take(i));
            assert(views.take(i + 1).last() == pages@[i]@);
            assert(all.take(i + 1).last() == item);
            match item {
                Some(item) => {
                    store.insert(pages[index].key.clone(), item);
                },
                None => {},
            }
            index += 1;
        }
        assert(page_views(pages@).take(pages.len() as int) == page_views(pages@));
        assert(all.take(all.len() as int) == all);
        store
    }

    /// Converts a catalog into a flat, key-value store of materials data.
    ///
    /// The pages are resolved in the order of the document, and each item is
    /// inserted under the composite key of its page. A page that does not
    /// resolve is passed over: it never ends the build.
    pub fn flatten<R: Fn(&PathBuf) -> Option<Material>, N: Fn(&str) -> Option<Number>>(
        catalog: &Vec<Shelf>,
        read: &R,
        number: &N,
    ) -> (store: Store)
        requires
            forall|p: &PathBuf| call_requires(read, (p,)),
            forall|t: &str| call_requires(number, (t,)),
        ensures
            exists|items: Seq<Option<crate::store::Material>>|
                flattens(read, number, catalog_pages(catalog@), items, store@),
            forall|key: Seq<char>| #[trigger]
                store@.contains_key(key) ==> exists|i: int|
                    0 <= i < catalog_pages(catalog@).len() && #[trigger] catalog_pages(
                        catalog@,
                    )[i].key == key,
    {
        let all = pages(catalog);
        let mut items: Vec<Option<crate::store::Material>> = Vec::new();
        let mut i: usize = 0;
        while i < all.len()
            invariant
                i <= all.len(),
                items.len() == i,
                forall|p: &PathBuf| call_requires(read, (p,)),
                forall|t: &str| call_requires(number, (t,)),
                forall|j: int| 0 <= j < i ==> page_outcome(read, number, all[j]@, #[trigger] items[j]),
            decreases all.len() - i,
        {
            let item = resolve(&all[i], read, number);
            items.push(item);
            i += 1;
        }
        let ghost outcomes = items@;
        let store = Store::assemble(&all, items);
        assert(flattens(read, number, catalog_pages(catalog@), outcomes, store@));
        assert forall|key: Seq<char>| #[trigger] store@.contains_key(key) implies exists|i: int|
            0 <= i < catalog_pages(catalog@).len() && #[trigger] catalog_pages(catalog@)[i].key
                == key by {
            lemma_collect(catalog_pages(catalog@), outcomes, key);
        }
        store
    }
}

} // verus!
