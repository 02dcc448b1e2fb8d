//! Categories under which tasks are posted.

use vstd::prelude::*;
use crate::state::{Dwork, DworkView, carried_out};
use crate::table::{Record, with_member};
use crate::types::{CallContext, CallContextView, CategoryId, Error, Timestamp};
use crate::utils::{byte_len, text_len};

verus! {

/// A topic under which tasks are posted.
#[derive(Debug, PartialEq, Eq)]
pub struct Category {
    pub id: CategoryId,
    pub name: String,
    pub created: Timestamp,
    /// How many tasks were posted under the category.
    pub num_posts: u64,
}

/// The mathematical content of a `Category`.
pub ghost struct CategoryView {
    pub id: Seq<char>,
    pub name: Seq<char>,
    pub created: Timestamp,
    pub num_posts: u64,
}

impl View for Category {
    type V = CategoryView;

    open spec fn view(&self) -> CategoryView {
        CategoryView { id: self.id@, name: self.name@, created: self.created, num_posts: self.num_posts }
    }
}

impl Record for Category {
    fn duplicate(&self) -> (c: Self) {
        Category {
            id: self.id.clone(),
            name: self.name.clone(),
            created: self.created,
            num_posts: self.num_posts,
        }
    }
}

impl Clone for Category {
    fn clone(&self) -> (c: Self)
        ensures
            c@ == self@,
    {
        self.duplicate()
    }
}

/// The lower-case form of a text, as the standard library's `str::to_lowercase`
/// gives it.
pub uninterp spec fn lowercase(text: Seq<char>) -> Seq<char>;

/// A text with each space replaced by an underscore.
pub open spec fn underscored(text: Seq<char>) -> Seq<char> {
    Seq::new(
        text.len(),
        |i: int|
            if text[i] == ' ' {
                '_'
            } else {
                text[i]
            },
    )
}

/// The identifier of the category with the given name: the name in lower
/// case, with underscores for spaces.
pub open spec fn category_id_of(name: Seq<char>) -> Seq<char> {
    underscored(lowercase(name))
}

/// Calls `str::to_lowercase` of the standard library. The result is a function
/// of the text alone; nothing more is claimed of it.
#[verifier::external_body]
fn to_lowercase(text: &String) -> (r: String)
    ensures
        r@ == lowercase(text@),
{
    text.to_lowercase()
}

/// Calls `str::replace` of the standard library with a space as the pattern
/// and an underscore as the replacement: every space of the text becomes an
/// underscore, and every other character stays.
#[verifier::external_body]
fn spaces_to_underscores(text: &String) -> (r: String)
    ensures
        r@ == underscored(text@),
{
    text.replace(' ', "_")
}

/// Derives the identifier of the category with the given name.
pub fn make_category_id(name: &String) -> (id: CategoryId)
    ensures
        id@ == category_id_of(name@),
{
    let lower = to_lowercase(name);
    spaces_to_underscores(&lower)
}

impl DworkView {
    /// The rule of `add_category`: the name keeps to the length of a title and
    /// the identifier is new. The category is then recorded, created now, with
    /// no posts.
    pub open spec fn add_category(self, ctx: CallContextView, id: Seq<char>, name: Seq<char>) -> Result<
        DworkView,
        Error,
    > {
        if byte_len(name) > self.app_config.maximum_title_length {
            Err(Error::Validation)
        } else if self.categories.contains_key(id) {
            Err(Error::StateConflict)
        } else {
            Ok(
                DworkView {
                    categories: self.categories.insert(
                        id,
                        CategoryView { id, name, created: ctx.block_timestamp, num_posts: 0 },
                    ),
                    category_order: with_member(self.category_order, id),
                    ..self
                },
            )
        }
    }
}

impl Dwork {
    /// Records the category `name` under the identifier `id`.
    pub fn add_category(&mut self, ctx: &CallContext, id: CategoryId, name: String) -> (r: Result<bool, Error>)
        ensures
            carried_out(old(self)@.add_category(ctx@, id@, name@), old(self)@, final(self)@, r),
            r matches Ok(added) ==> added,
    {
        if text_len(&name) > self.app_config.maximum_title_length as usize {
            return Err(Error::Validation);
        }
        if self.categories.contains_key(&id) {
            return Err(Error::StateConflict);
        }
        let category = Category {
            id: id.duplicate(),
            name,
            created: ctx.block_timestamp,
            num_posts: 0,
        };
        self.categories.insert(id, category);
        Ok(true)
    }

    /// Records the category `topic_name` under the identifier that is derived
    /// from the name.
    pub fn new_category(&mut self, ctx: &CallContext, topic_name: String) -> (r: Result<bool, Error>)
        ensures
            carried_out(
                old(self)@.add_category(ctx@, category_id_of(topic_name@), topic_name@),
                old(self)@,
                final(self)@,
                r,
            ),
            r matches Ok(added) ==> added,
    {
        let id = make_category_id(&topic_name);
        self.add_category(ctx, id, topic_name)
    }
}

} // verus!
