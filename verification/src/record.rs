//! The output record: one extracted feed item with six string fields.

use vstd::prelude::*;

verus! {

/// One extracted feed item. A record is appended when a container element
/// opens; fields left untouched stay empty.
#[derive(Debug)]
pub struct RssItem {
    pub title: String,
    pub link: String,
    pub author: String,
    pub description: String,
    pub guid: String,
    pub publish: String,
}

/// The mathematical value of a record: its six fields as character sequences.
#[verifier::ext_equal]
pub struct ItemModel {
    pub title: Seq<char>,
    pub link: Seq<char>,
    pub author: Seq<char>,
    pub description: Seq<char>,
    pub guid: Seq<char>,
    pub publish: Seq<char>,
}

impl View for RssItem {
    type V = ItemModel;

    open spec fn view(&self) -> ItemModel {
        ItemModel {
            title: self.title@,
            link: self.link@,
            author: self.author@,
            description: self.description@,
            guid: self.guid@,
            publish: self.publish@,
        }
    }
}

/// The record every container element starts from: all six fields empty.
pub open spec fn empty_item() -> ItemModel {
    ItemModel {
        title: Seq::empty(),
        link: Seq::empty(),
        author: Seq::empty(),
        description: Seq::empty(),
        guid: Seq::empty(),
        publish: Seq::empty(),
    }
}

impl Default for RssItem {
    fn default() -> (r: Self)
        ensures
            r@ == empty_item(),
    {
        let r = RssItem {
            title: String::new(),
            link: String::new(),
            author: String::new(),
            description: String::new(),
            guid: String::new(),
            publish: String::new(),
        };
        proof {
            assert(r@ =~= empty_item());
        }
        r
    }
}

} // verus!
