//! Kubernetes manifests: which images they need, and which container a command is run in.

use vstd::prelude::*;
use vstd::string::*;

use crate::error::{viewed_result, AppError, ErrorView};
use crate::text::{
    precedes, precedes_is_irreflexive, precedes_is_total, precedes_is_transitive, text_precedes,
    texts,
};

verus! {

/// A YAML value. Numbers are told apart from the other values, but not from each other, and the
/// name of a tag is left out.
#[derive(Debug)]
pub enum YamlValue {
    Null,
    Bool(bool),
    Number,
    Text(String),
    Sequence(Vec<YamlValue>),
    Mapping(Vec<(YamlValue, YamlValue)>),
    Tagged(Box<YamlValue>),
}

/// A [`YamlValue`] with its texts and lists as sequences.
pub enum Yaml {
    Null,
    Bool(bool),
    Number,
    Text(Seq<char>),
    Sequence(Seq<Yaml>),
    Mapping(Seq<(Yaml, Yaml)>),
    Tagged(Box<Yaml>),
}

impl YamlValue {
    /// The value with its texts and lists as sequences.
    pub open spec fn yaml(self) -> Yaml
        decreases self,
    {
        match self {
            YamlValue::Null => Yaml::Null,
            YamlValue::Bool(b) => Yaml::Bool(b),
            YamlValue::Number => Yaml::Number,
            YamlValue::Text(s) => Yaml::Text(s@),
            YamlValue::Sequence(items) => Yaml::Sequence(
                Seq::new(
                    items@.len(),
                    |k: int|
                        if 0 <= k < items@.len() {
                            items@[k].yaml()
                        } else {
                            Yaml::Null
                        },
                ),
            ),
            YamlValue::Mapping(entries) => Yaml::Mapping(
                Seq::new(
                    entries@.len(),
                    |k: int|
                        if 0 <= k < entries@.len() {
                            (entries@[k].0.yaml(), entries@[k].1.yaml())
                        } else {
                            (Yaml::Null, Yaml::Null)
                        },
                ),
            ),
            YamlValue::Tagged(inner) => Yaml::Tagged(Box::new((*inner).yaml())),
        }
    }
}

impl View for YamlValue {
    type V = Yaml;

    open spec fn view(&self) -> Yaml {
        self.yaml()
    }
}

impl Yaml {
    /// The value under its tags.
    pub open spec fn untagged(self) -> Yaml
        decreases self,
    {
        match self {
            Yaml::Tagged(inner) => (*inner).untagged(),
            _ => self,
        }
    }

    /// The text that this value is, its tags aside.
    pub open spec fn as_text(self) -> Option<Seq<char>> {
        match self.untagged() {
            Yaml::Text(text) => Some(text),
            _ => None,
        }
    }

    /// The items of the sequence that this value is, its tags aside.
    pub open spec fn as_items(self) -> Option<Seq<Yaml>> {
        match self.untagged() {
            Yaml::Sequence(items) => Some(items),
            _ => None,
        }
    }

    /// What the mapping that this value is, its tags aside, holds under a text.
    pub open spec fn get(self, key: Seq<char>) -> Option<Yaml> {
        match self.untagged() {
            Yaml::Mapping(entries) => entry(entries, key),
            _ => None,
        }
    }
}

/// What stands under a text in a list of entries: the first, where there is more than one.
pub open spec fn entry(entries: Seq<(Yaml, Yaml)>, key: Seq<char>) -> Option<Yaml>
    decreases entries.len(),
{
    if entries.len() == 0 {
        None
    } else if entries[0].0 == Yaml::Text(key) {
        Some(entries[0].1)
    } else {
        entry(entries.skip(1), key)
    }
}

/// An optional value as a [`Yaml`].
pub open spec fn yaml_option(value: Option<&YamlValue>) -> Option<Yaml> {
    match value {
        Some(value) => Some(value@),
        None => None,
    }
}

/// The value under its tags.
fn untag(value: &YamlValue) -> (inner: &YamlValue)
    ensures
        inner@ == value@.untagged(),
        !(inner is Tagged),
    decreases value,
{
    match value {
        YamlValue::Tagged(inner) => untag(inner),
        _ => value,
    }
}

/// The text that a value is, its tags aside.
fn as_text(value: &YamlValue) -> (text: Option<String>)
    ensures
        match text {
            Some(text) => value@.as_text() == Some(text@),
            None => value@.as_text() is None,
        },
{
    match untag(value) {
        YamlValue::Text(text) => Some(text.clone()),
        _ => None,
    }
}

/// Whether a key is the given text.
fn is_key(key: &YamlValue, name: &str) -> (same: bool)
    ensures
        same == (key@ == Yaml::Text(name@)),
{
    match key {
        YamlValue::Text(text) => *text == name.to_string(),
        _ => false,
    }
}

/// What a mapping holds under a text; nothing where the value is no mapping.
fn yaml_mapping_get<'a>(value: &'a YamlValue, key: &str) -> (found: Option<&'a YamlValue>)
    ensures
        yaml_option(found) == value@.get(key@),
{
    match untag(value) {
        YamlValue::Mapping(entries) => {
            let ghost all = value@.untagged()->Mapping_0;
            let mut k: usize = 0;
            proof {
                assert(all.skip(0) =~= all);
            }
            while k < entries.len()
                invariant
                    k <= entries@.len(),
                    all == YamlValue::Mapping(*entries)@->Mapping_0,
                    value@.get(key@) == entry(all.skip(k as int), key@),
                decreases entries@.len() - k,
            {
                proof {
                    assert(all[k as int] == (entries@[k as int].0@, entries@[k as int].1@));
                    assert(all.skip(k as int).skip(1) =~= all.skip(k + 1));
                }
                if is_key(&entries[k].0, key) {
                    return Some(&entries[k].1);
                }
                k = k + 1;
            }
            None
        },
        _ => None,
    }
}

/// A value of the YAML reader.
#[verifier::external_type_specification]
#[verifier::external_body]
pub struct ExYamlValue(yaml_serde::Value);

/// What a value of the YAML reader holds.
pub uninterp spec fn yaml_contents(value: yaml_serde::Value) -> Yaml;

/// A value of the YAML reader, opened: what it is, and the values that it is made of.
enum YamlNode<'a> {
    Null,
    Bool(bool),
    Number,
    Text(String),
    Sequence(Vec<&'a yaml_serde::Value>),
    Mapping(Vec<(&'a yaml_serde::Value, &'a yaml_serde::Value)>),
    Tagged(&'a yaml_serde::Value),
}

/// What an opened value holds.
spec fn node_contents(node: YamlNode) -> Yaml {
    match node {
        YamlNode::Null => Yaml::Null,
        YamlNode::Bool(b) => Yaml::Bool(b),
        YamlNode::Number => Yaml::Number,
        YamlNode::Text(text) => Yaml::Text(text@),
        YamlNode::Sequence(items) => Yaml::Sequence(
            Seq::new(items@.len(), |k: int| yaml_contents(*items@[k])),
        ),
        YamlNode::Mapping(entries) => Yaml::Mapping(
            Seq::new(
                entries@.len(),
                |k: int| (yaml_contents(*entries@[k].0), yaml_contents(*entries@[k].1)),
            ),
        ),
        YamlNode::Tagged(inner) => Yaml::Tagged(Box::new(yaml_contents(*inner))),
    }
}

/// Opens a [`yaml_serde::Value`]: its variants are told apart, and the parts of a sequence and of a
/// mapping handed out in the order in which `iter` of [`Vec`] and of [`yaml_serde::Mapping`] has
/// them. Of a number nothing is kept, and of a tag not its name.
#[verifier::external_body]
fn open_value<'a>(value: &'a yaml_serde::Value) -> (node: YamlNode<'a>)
    ensures
        node_contents(node) == yaml_contents(*value),
{
    match value {
        yaml_serde::Value::Null => YamlNode::Null,
        yaml_serde::Value::Bool(b) => YamlNode::Bool(*b),
        yaml_serde::Value::Number(_) => YamlNode::Number,
        yaml_serde::Value::String(text) => YamlNode::Text(text.clone()),
        yaml_serde::Value::Sequence(items) => YamlNode::Sequence(items.iter().collect()),
        yaml_serde::Value::Mapping(entries) => YamlNode::Mapping(entries.iter().collect()),
        yaml_serde::Value::Tagged(tagged) => YamlNode::Tagged(&tagged.value),
    }
}

/// Turns a value of the YAML reader into one of this library, part by part.
fn yaml_value(value: &yaml_serde::Value) -> (converted: YamlValue)
    ensures
        converted@ == yaml_contents(*value),
    decreases yaml_contents(*value),
{
    let ghost whole = yaml_contents(*value);
    match open_value(value) {
        YamlNode::Null => YamlValue::Null,
        YamlNode::Bool(b) => YamlValue::Bool(b),
        YamlNode::Number => YamlValue::Number,
        YamlNode::Text(text) => YamlValue::Text(text),
        YamlNode::Sequence(items) => {
            let mut converted: Vec<YamlValue> = Vec::new();
            let mut k: usize = 0;
            while k < items.len()
                invariant
                    k <= items@.len(),
                    converted@.len() == k,
                    whole == yaml_contents(*value),
                    whole == node_contents(YamlNode::Sequence(items)),
                    forall|j: int| 0 <= j < k ==> (#[trigger] converted@[j])@ == whole->Sequence_0[j],
                decreases items@.len() - k,
            {
                proof {
                    assert(whole->Sequence_0[k as int] == yaml_contents(*items@[k as int]));
                    assert(decreases_to!(whole => whole->Sequence_0[k as int]));
                }
                converted.push(yaml_value(items[k]));
                k = k + 1;
            }
            proof {
                assert(YamlValue::Sequence(converted)@->Sequence_0 =~= whole->Sequence_0);
            }
            YamlValue::Sequence(converted)
        },
        YamlNode::Mapping(entries) => {
            let mut converted: Vec<(YamlValue, YamlValue)> = Vec::new();
            let mut k: usize = 0;
            while k < entries.len()
                invariant
                    k <= entries@.len(),
                    converted@.len() == k,
                    whole == yaml_contents(*value),
                    whole == node_contents(YamlNode::Mapping(entries)),
                    forall|j: int|
                        0 <= j < k ==> (#[trigger] converted@[j]).0@ == whole->Mapping_0[j].0
                            && converted@[j].1@ == whole->Mapping_0[j].1,
                decreases entries@.len() - k,
            {
                proof {
                    let entry = whole->Mapping_0[k as int];
                    assert(entry.0 == yaml_contents(*entries@[k as int].0));
                    assert(entry.1 == yaml_contents(*entries@[k as int].1));
                    assert(decreases_to!(whole => entry));
                    assert(decreases_to!(entry => entry.0));
                    assert(decreases_to!(entry => entry.1));
                }
                let key = yaml_value(entries[k].0);
                let held = yaml_value(entries[k].1);
                converted.push((key, held));
                k = k + 1;
            }
            proof {
                assert(YamlValue::Mapping(converted)@->Mapping_0 =~= whole->Mapping_0);
            }
            YamlValue::Mapping(converted)
        },
        YamlNode::Tagged(inner) => {
            proof {
                assert(*whole->Tagged_0 == yaml_contents(*inner));
                assert(decreases_to!(whole => *whole->Tagged_0));
            }
            YamlValue::Tagged(Box::new(yaml_value(inner)))
        },
    }
}

/// What the YAML reader makes of a text: a value, or the message with which it refuses the text.
pub uninterp spec fn yaml_document(contents: Seq<char>) -> Result<Yaml, Seq<char>>;

/// Calls [`yaml_serde::from_str`] for a [`yaml_serde::Value`]. The outcome is a function of the
/// text alone; it is named, not described.
#[verifier::external_body]
fn parse_yaml(contents: &str) -> (document: Result<yaml_serde::Value, String>)
    ensures
        opened_reply(document) == yaml_document(contents@),
{
    yaml_serde::from_str::<yaml_serde::Value>(contents).map_err(|err| err.to_string())
}

/// A document of the YAML reader with what it holds, or the message that refuses it.
spec fn opened_reply(document: Result<yaml_serde::Value, String>) -> Result<Yaml, Seq<char>> {
    match document {
        Ok(value) => Ok(yaml_contents(value)),
        Err(message) => Err(message@),
    }
}

/// The result of reading a manifest.
pub open spec fn manifest_of(document: Result<Yaml, Seq<char>>) -> Result<Yaml, ErrorView> {
    match document {
        Ok(value) => Ok(value),
        Err(message) => Err(ErrorView::Yaml(message)),
    }
}

/// Reads a manifest from its text.
pub fn parse_yaml_value_from_str(contents: &str) -> (manifest: Result<YamlValue, AppError>)
    ensures
        viewed_result(manifest) == manifest_of(yaml_document(contents@)),
{
    match parse_yaml(contents) {
        Ok(value) => Ok(yaml_value(&value)),
        Err(message) => Err(AppError::Yaml(message)),
    }
}

/// A value names an image where, at any depth of its mappings and sequences, the key `image` holds
/// it as a text.
pub open spec fn names_image(value: Yaml, image: Seq<char>) -> bool
    decreases value,
{
    match value {
        Yaml::Mapping(entries) => exists|k: int|
            0 <= k < entries.len() && {
                ||| (#[trigger] entries[k]).0 == Yaml::Text("image"@) && entries[k].1 == Yaml::Text(
                    image,
                )
                ||| names_image(entries[k].1, image)
            },
        Yaml::Sequence(items) => exists|k: int|
            0 <= k < items.len() && names_image(#[trigger] items[k], image),
        _ => false,
    }
}

/// Each text comes before all that follow it.
pub open spec fn ascending(list: Seq<Seq<char>>) -> bool {
    forall|i: int, j: int| 0 <= i < j < list.len() ==> precedes(#[trigger] list[i], #[trigger] list[j])
}

/// The images that a value names, each once, in ascending order.
pub open spec fn is_image_list(value: Yaml, list: Seq<Seq<char>>) -> bool {
    &&& ascending(list)
    &&& forall|image: Seq<char>| #[trigger] list.contains(image) <==> names_image(value, image)
}

/// The images that a value names, each once, in ascending order.
pub open spec fn image_list(value: Yaml) -> Seq<Seq<char>> {
    choose|list: Seq<Seq<char>>| is_image_list(value, list)
}

/// Two ascending lists with the same members are the same list.
pub proof fn ascending_is_unique(a: Seq<Seq<char>>, b: Seq<Seq<char>>)
    requires
        ascending(a),
        ascending(b),
        forall|text: Seq<char>| #[trigger] a.contains(text) <==> b.contains(text),
    ensures
        a == b,
    decreases a.len(),
{
    if a.len() == 0 {
        if b.len() > 0 {
            assert(b.contains(b[0]));
            assert(a.contains(b[0]));
        }
        assert(a =~= b);
    } else {
        assert(a.contains(a.last()));
        assert(b.contains(a.last()));
        let j = choose|j: int| 0 <= j < b.len() && b[j] == a.last();
        if j < b.len() - 1 {
            assert(b.contains(b.last()));
            assert(a.contains(b.last()));
            let i = choose|i: int| 0 <= i < a.len() && a[i] == b.last();
            assert(precedes(b[j], b[b.len() - 1]));
            if i < a.len() - 1 {
                assert(precedes(a[i], a[a.len() - 1]));
                precedes_is_transitive(a.last(), b.last(), a.last());
            }
            precedes_is_irreflexive(a.last());
        }
        let shorter_a = a.drop_last();
        let shorter_b = b.drop_last();
        assert forall|text: Seq<char>| #[trigger] shorter_a.contains(text) <==> shorter_b.contains(
            text,
        ) by {
            in_front_of_the_last(a, text);
            in_front_of_the_last(b, text);
            assert(a.contains(text) <==> b.contains(text));
        }
        ascending_is_unique(shorter_a, shorter_b);
        assert(a =~= shorter_a.push(a.last()));
        assert(b =~= shorter_b.push(b.last()));
    }
}

/// The members of an ascending list without its last one are the others.
proof fn in_front_of_the_last(list: Seq<Seq<char>>, text: Seq<char>)
    requires
        ascending(list),
        list.len() > 0,
    ensures
        list.drop_last().contains(text) <==> list.contains(text) && text != list.last(),
{
    let front = list.drop_last();
    if front.contains(text) {
        let k = choose|k: int| 0 <= k < front.len() && front[k] == text;
        assert(list[k] == text);
        assert(precedes(list[k], list[list.len() - 1]));
        precedes_is_irreflexive(text);
    }
    if list.contains(text) && text != list.last() {
        let k = choose|k: int| 0 <= k < list.len() && list[k] == text;
        assert(front[k] == text);
    }
}

/// An ascending list with a text more.
proof fn inserted(list: Seq<Seq<char>>, text: Seq<char>) -> (longer: Seq<Seq<char>>)
    requires
        ascending(list),
    ensures
        ascending(longer),
        forall|other: Seq<char>| #[trigger]
            longer.contains(other) <==> list.contains(other) || other == text,
    decreases list.len(),
{
    if list.len() == 0 {
        let longer = seq![text];
        assert(longer.contains(longer[0]));
        longer
    } else if list.last() == text {
        assert(list.contains(list[list.len() - 1]));
        list
    } else if precedes(list.last(), text) {
        let longer = list.push(text);
        assert forall|i: int, j: int| 0 <= i < j < longer.len() implies precedes(
            #[trigger] longer[i],
            #[trigger] longer[j],
        ) by {
            if j == list.len() && i < list.len() - 1 {
                precedes_is_transitive(list[i], list[list.len() - 1], text);
            }
        }
        members_of_a_push(list, text);
        longer
    } else {
        precedes_is_total(list.last(), text);
        let front = list.drop_last();
        let inner = inserted(front, text);
        let longer = inner.push(list.last());
        assert forall|i: int, j: int| 0 <= i < j < longer.len() implies precedes(
            #[trigger] longer[i],
            #[trigger] longer[j],
        ) by {
            if j == inner.len() {
                assert(inner.contains(inner[i]));
                if inner[i] != text {
                    assert(front.contains(inner[i]));
                    let k = choose|k: int| 0 <= k < front.len() && front[k] == inner[i];
                    assert(precedes(list[k], list[list.len() - 1]));
                }
            }
        }
        assert(list =~= front.push(list.last()));
        members_of_a_push(front, list.last());
        members_of_a_push(inner, list.last());
        longer
    }
}

/// The members of a list and one more.
proof fn members_of_a_push(list: Seq<Seq<char>>, text: Seq<char>)
    ensures
        forall|other: Seq<char>| #[trigger]
            list.push(text).contains(other) <==> list.contains(other) || other == text,
{
    let longer = list.push(text);
    assert forall|other: Seq<char>| #[trigger] longer.contains(other) <==> list.contains(other)
        || other == text by {
        if list.contains(other) {
            let k = choose|k: int| 0 <= k < list.len() && list[k] == other;
            assert(longer[k] == other);
        }
        if other == text {
            assert(longer[list.len() as int] == other);
        }
    }
}

/// An ascending list with all images that a value names.
proof fn gathered(value: Yaml, list: Seq<Seq<char>>) -> (longer: Seq<Seq<char>>)
    requires
        ascending(list),
    ensures
        ascending(longer),
        forall|image: Seq<char>| #[trigger]
            longer.contains(image) <==> list.contains(image) || names_image(value, image),
    decreases value, 1nat, 0nat,
{
    match value {
        Yaml::Mapping(entries) => gathered_entries(value, entries.len(), list),
        Yaml::Sequence(items) => gathered_items(value, items.len(), list),
        _ => list,
    }
}

/// An ascending list with all images that the first entries of a mapping name.
proof fn gathered_entries(value: Yaml, count: nat, list: Seq<Seq<char>>) -> (longer: Seq<Seq<char>>)
    requires
        ascending(list),
        value is Mapping,
        count <= value->Mapping_0.len(),
    ensures
        ascending(longer),
        forall|image: Seq<char>| #[trigger]
            longer.contains(image) <==> list.contains(image) || exists|j: int|
                0 <= j < count && {
                    ||| (#[trigger] value->Mapping_0[j]).0 == Yaml::Text("image"@)
                        && value->Mapping_0[j].1 == Yaml::Text(image)
                    ||| names_image(value->Mapping_0[j].1, image)
                },
    decreases value, 0nat, count,
{
    if count == 0 {
        list
    } else {
        let before = gathered_entries(value, (count - 1) as nat, list);
        let here = value->Mapping_0[count - 1];
        let named = if here.0 == Yaml::Text("image"@) && here.1 is Text {
            inserted(before, here.1->Text_0)
        } else {
            before
        };
        let longer = gathered(here.1, named);
        assert forall|image: Seq<char>| #[trigger]
            longer.contains(image) <==> list.contains(image) || exists|j: int|
                0 <= j < count && {
                    ||| (#[trigger] value->Mapping_0[j]).0 == Yaml::Text("image"@)
                        && value->Mapping_0[j].1 == Yaml::Text(image)
                    ||| names_image(value->Mapping_0[j].1, image)
                } by {
            assert(longer.contains(image) <==> before.contains(image) || (here.0 == Yaml::Text(
                "image"@,
            ) && here.1 == Yaml::Text(image)) || names_image(here.1, image));
        }
        longer
    }
}

/// An ascending list with all images that the first items of a sequence name.
proof fn gathered_items(value: Yaml, count: nat, list: Seq<Seq<char>>) -> (longer: Seq<Seq<char>>)
    requires
        ascending(list),
        value is Sequence,
        count <= value->Sequence_0.len(),
    ensures
        ascending(longer),
        forall|image: Seq<char>| #[trigger]
            longer.contains(image) <==> list.contains(image) || exists|j: int|
                0 <= j < count && names_image(#[trigger] value->Sequence_0[j], image),
    decreases value, 0nat, count,
{
    if count == 0 {
        list
    } else {
        let before = gathered_items(value, (count - 1) as nat, list);
        let here = value->Sequence_0[count - 1];
        let longer = gathered(here, before);
        assert forall|image: Seq<char>| #[trigger]
            longer.contains(image) <==> list.contains(image) || exists|j: int|
                0 <= j < count && names_image(#[trigger] value->Sequence_0[j], image) by {
            assert(longer.contains(image) <==> before.contains(image) || names_image(here, image));
        }
        longer
    }
}

/// Every value has one list of the images that it names, each once, in ascending order.
pub proof fn image_list_is_the_one(value: Yaml, list: Seq<Seq<char>>)
    ensures
        is_image_list(value, image_list(value)),
        is_image_list(value, list) ==> list == image_list(value),
{
    let found = gathered(value, Seq::empty());
    assert(is_image_list(value, found));
    let chosen = image_list(value);
    assert(is_image_list(value, chosen));
    if is_image_list(value, list) {
        assert forall|text: Seq<char>| #[trigger] list.contains(text) <==> chosen.contains(
            text,
        ) by {
            assert(chosen.contains(text) <==> names_image(value, text));
        }
        ascending_is_unique(list, chosen);
    }
}

/// Puts a text in its place in an ascending list, unless it is there.
fn insert_text(list: &mut Vec<String>, text: &String)
    requires
        ascending(texts(old(list)@)),
    ensures
        ascending(texts(final(list)@)),
        forall|other: Seq<char>| #[trigger]
            texts(final(list)@).contains(other) <==> texts(old(list)@).contains(other) || other
                == text@,
{
    let ghost before = texts(list@);
    let mut k: usize = 0;
    while k < list.len() && text_precedes(list[k].as_str(), text.as_str())
        invariant
            k <= list@.len(),
            texts(list@) == before,
            ascending(before),
            forall|i: int| 0 <= i < k ==> precedes(#[trigger] before[i], text@),
        decreases list@.len() - k,
    {
        k = k + 1;
    }
    if k < list.len() && list[k] == *text {
        proof {
            assert(before[k as int] == text@);
            assert(before.contains(text@));
        }
        return ;
    }
    let ghost old_list = list@;
    list.insert(k, text.clone());
    proof {
        let after = texts(list@);
        assert(after =~= before.insert(k as int, text@));
        assert forall|i: int, j: int| 0 <= i < j < after.len() implies precedes(
            #[trigger] after[i],
            #[trigger] after[j],
        ) by {
            if i == k {
                assert(before[k as int] != text@);
                precedes_is_total(before[k as int], text@);
                if j - 1 > k {
                    assert(precedes(before[k as int], before[j - 1]));
                    precedes_is_transitive(text@, before[k as int], before[j - 1]);
                }
            } else if j == k {
                assert(precedes(before[i], text@));
            } else {
                let from = if i < k { i } else { i - 1 };
                let to = if j < k { j } else { j - 1 };
                assert(precedes(before[from], before[to]));
            }
        }
        assert forall|other: Seq<char>| #[trigger] after.contains(other) <==> before.contains(other)
            || other == text@ by {
            if after.contains(other) {
                let i = choose|i: int| 0 <= i < after.len() && after[i] == other;
                if i < k {
                    assert(before[i] == other);
                } else if i > k {
                    assert(before[i - 1] == other);
                }
            }
            if before.contains(other) {
                let i = choose|i: int| 0 <= i < before.len() && before[i] == other;
                if i < k {
                    assert(after[i] == other);
                } else {
                    assert(after[i + 1] == other);
                }
            }
            if other == text@ {
                assert(after[k as int] == other);
            }
        }
    }
}

/// Adds all images that a value names to an ascending list.
fn collect_yaml_images(value: &YamlValue, images: &mut Vec<String>)
    requires
        ascending(texts(old(images)@)),
    ensures
        ascending(texts(final(images)@)),
        forall|image: Seq<char>| #[trigger]
            texts(final(images)@).contains(image) <==> texts(old(images)@).contains(image)
                || names_image(value@, image),
    decreases value,
{
    match value {
        YamlValue::Mapping(entries) => {
            let ghost all = value@->Mapping_0;
            let ghost before = texts(images@);
            let mut k: usize = 0;
            while k < entries.len()
                invariant
                    k <= entries@.len(),
                    *value == YamlValue::Mapping(*entries),
                    all == value@->Mapping_0,
                    ascending(texts(images@)),
                    forall|image: Seq<char>| #[trigger]
                        texts(images@).contains(image) <==> before.contains(image) || exists|j: int|
                            0 <= j < k && {
                                ||| (#[trigger] all[j]).0 == Yaml::Text("image"@) && all[j].1
                                    == Yaml::Text(image)
                                ||| names_image(all[j].1, image)
                            },
                decreases entries@.len() - k,
            {
                let ghost earlier = texts(images@);
                proof {
                    assert(all[k as int] == (entries@[k as int].0@, entries@[k as int].1@));
                }
                if is_key(&entries[k].0, "image") {
                    if let YamlValue::Text(image) = &entries[k].1 {
                        insert_text(images, image);
                    }
                }
                collect_yaml_images(&entries[k].1, images);
                proof {
                    assert forall|image: Seq<char>| #[trigger]
                        texts(images@).contains(image) <==> before.contains(image) || exists|j: int|
                            0 <= j < k + 1 && {
                                ||| (#[trigger] all[j]).0 == Yaml::Text("image"@) && all[j].1
                                    == Yaml::Text(image)
                                ||| names_image(all[j].1, image)
                            } by {
                        let here = all[k as int];
                        assert(texts(images@).contains(image) <==> earlier.contains(image) || (
                        here.0 == Yaml::Text("image"@) && here.1 == Yaml::Text(image))
                            || names_image(here.1, image));
                    }
                }
                k = k + 1;
            }
        },
        YamlValue::Sequence(items) => {
            let ghost all = value@->Sequence_0;
            let ghost before = texts(images@);
            let mut k: usize = 0;
            while k < items.len()
                invariant
                    k <= items@.len(),
                    *value == YamlValue::Sequence(*items),
                    all == value@->Sequence_0,
                    ascending(texts(images@)),
                    forall|image: Seq<char>| #[trigger]
                        texts(images@).contains(image) <==> before.contains(image) || exists|j: int|
                            0 <= j < k && names_image(#[trigger] all[j], image),
                decreases items@.len() - k,
            {
                let ghost earlier = texts(images@);
                proof {
                    assert(all[k as int] == items@[k as int]@);
                }
                collect_yaml_images(&items[k], images);
                proof {
                    assert forall|image: Seq<char>| #[trigger]
                        texts(images@).contains(image) <==> before.contains(image) || exists|j: int|
                            0 <= j < k + 1 && names_image(#[trigger] all[j], image) by {
                        assert(texts(images@).contains(image) <==> earlier.contains(image)
                            || names_image(all[k as int], image));
                    }
                }
                k = k + 1;
            }
        },
        _ => {},
    }
}

/// The images that a manifest names, each once, in ascending order. Only texts under a key `image`
/// count.
pub fn extract_images_from_yaml_value(manifest: &YamlValue) -> (images: Result<
    Vec<String>,
    AppError,
>)
    ensures
        images matches Ok(list) && is_image_list(manifest@, texts(list@)) && texts(list@)
            == image_list(manifest@),
{
    let mut images: Vec<String> = Vec::new();
    proof {
        assert(texts(images@) =~= Seq::empty());
    }
    collect_yaml_images(manifest, &mut images);
    proof {
        assert(is_image_list(manifest@, texts(images@)));
        image_list_is_the_one(manifest@, texts(images@));
    }
    Ok(images)
}

/// The containers that a manifest lists under `spec.containers`.
pub open spec fn containers_of(manifest: Yaml) -> Option<Seq<Yaml>> {
    match manifest.get("spec"@) {
        Some(spec) => match spec.get("containers"@) {
            Some(containers) => containers.as_items(),
            None => None,
        },
        None => None,
    }
}

/// The name of a container.
pub open spec fn container_name(container: Yaml) -> Option<Seq<char>> {
    match container.get("name"@) {
        Some(name) => name.as_text(),
        None => None,
    }
}

/// Whether a container carries the label that has commands run in it.
pub open spec fn is_join_container(container: Yaml) -> bool {
    match container.get("labels"@) {
        Some(labels) => match labels.get("run.sarus.join"@) {
            Some(label) => label.as_text() == Some("true"@),
            None => false,
        },
        None => false,
    }
}

/// The containers with that label, in the order of the manifest.
pub open spec fn join_containers(containers: Seq<Yaml>) -> Seq<Yaml>
    decreases containers.len(),
{
    if containers.len() == 0 {
        Seq::empty()
    } else {
        let before = join_containers(containers.drop_last());
        if is_join_container(containers.last()) {
            before.push(containers.last())
        } else {
            before
        }
    }
}

/// The container in which commands are run: the only one with the label or, where none has it, the
/// only one there is.
pub open spec fn join_container(manifest: Yaml) -> Result<Seq<char>, ErrorView> {
    match containers_of(manifest) {
        None => Err(ErrorView::Yaml("YAML manifest must define spec.containers"@)),
        Some(containers) => {
            let labelled = join_containers(containers);
            if exists|k: int|
                0 <= k < containers.len() && container_name(#[trigger] containers[k]) is None {
                Err(
                    ErrorView::Yaml(
                        "Each container in spec.containers must define a string name"@,
                    ),
                )
            } else if labelled.len() == 1 {
                Ok(container_name(labelled[0])->0)
            } else if labelled.len() > 1 {
                Err(
                    ErrorView::Yaml(
                        "YAML manifest must not label more than one container with run.sarus.join=\"true\""@,
                    ),
                )
            } else if containers.len() == 1 {
                Ok(container_name(containers[0])->0)
            } else if containers.len() == 0 {
                Err(
                    ErrorView::Yaml(
                        "YAML manifest must define at least one container in spec.containers"@,
                    ),
                )
            } else {
                Err(
                    ErrorView::Yaml(
                        "YAML manifest must label exactly one container with run.sarus.join=\"true\" when spec.containers has multiple containers"@,
                    ),
                )
            }
        },
    }
}

/// The name of a container.
fn name_of(container: &YamlValue) -> (name: Option<String>)
    ensures
        match name {
            Some(name) => container_name(container@) == Some(name@),
            None => container_name(container@) is None,
        },
{
    match yaml_mapping_get(container, "name") {
        Some(name) => as_text(name),
        None => None,
    }
}

/// Whether a container carries the label that has commands run in it.
fn has_join_label(container: &YamlValue) -> (labelled: bool)
    ensures
        labelled == is_join_container(container@),
{
    match yaml_mapping_get(container, "labels") {
        Some(labels) => match yaml_mapping_get(labels, "run.sarus.join") {
            Some(label) => match as_text(label) {
                Some(text) => text == "true".to_string(),
                None => false,
            },
            None => false,
        },
        None => false,
    }
}

/// The name of the container in which commands are run.
pub fn extract_join_container_from_yaml_value(manifest: &YamlValue) -> (name: Result<
    String,
    AppError,
>)
    ensures
        viewed_result(name) == join_container(manifest@),
{
    let listed = match yaml_mapping_get(manifest, "spec") {
        Some(spec) => match yaml_mapping_get(spec, "containers") {
            Some(containers) => match untag(containers) {
                YamlValue::Sequence(items) => Some(items),
                _ => None,
            },
            None => None,
        },
        None => None,
    };
    let containers = match listed {
        Some(items) => items,
        None => {
            return Err(AppError::Yaml("YAML manifest must define spec.containers".to_string()));
        },
    };
    let ghost all = containers_of(manifest@)->0;
    let mut all_names: Vec<String> = Vec::new();
    let mut join_names: Vec<String> = Vec::new();
    let mut k: usize = 0;
    proof {
        assert(all.take(0) =~= Seq::empty());
        assert(texts(join_names@) =~= Seq::empty());
    }
    while k < containers.len()
        invariant
            k <= containers@.len(),
            containers_of(manifest@) == Some(all),
            all == YamlValue::Sequence(*containers)@->Sequence_0,
            all_names@.len() == k,
            forall|i: int|
                0 <= i < k ==> container_name(#[trigger] all[i]) == Some(all_names@[i]@),
            join_names@.len() == join_containers(all.take(k as int)).len(),
            forall|i: int|
                0 <= i < join_names@.len() ==> container_name(
                    #[trigger] join_containers(all.take(k as int))[i],
                ) == Some(join_names@[i]@),
        decreases containers@.len() - k,
    {
        proof {
            assert(all[k as int] == containers@[k as int]@);
            assert(all.take(k + 1).drop_last() =~= all.take(k as int));
        }
        let name = match name_of(&containers[k]) {
            Some(name) => name,
            None => {
                return Err(
                    AppError::Yaml(
                        "Each container in spec.containers must define a string name".to_string(),
                    ),
                );
            },
        };
        if has_join_label(&containers[k]) {
            join_names.push(name.clone());
        }
        all_names.push(name);
        k = k + 1;
    }
    proof {
        assert(all.take(k as int) =~= all);
    }
    if join_names.len() == 1 {
        proof {
            assert(container_name(join_containers(all)[0]) == Some(join_names@[0]@));
        }
        Ok(join_names[0].clone())
    } else if join_names.len() > 1 {
        Err(
            AppError::Yaml(
                "YAML manifest must not label more than one container with run.sarus.join=\"true\"".to_string(),
            ),
        )
    } else if all_names.len() == 1 {
        proof {
            assert(container_name(all[0]) == Some(all_names@[0]@));
        }
        Ok(all_names[0].clone())
    } else if all_names.len() == 0 {
        Err(
            AppError::Yaml(
                "YAML manifest must define at least one container in spec.containers".to_string(),
            ),
        )
    } else {
        Err(
            AppError::Yaml(
                "YAML manifest must label exactly one container with run.sarus.join=\"true\" when spec.containers has multiple containers".to_string(),
            ),
        )
    }
}

/// The name of the pod that a manifest describes.
pub open spec fn pod_name(manifest: Yaml) -> Result<Seq<char>, ErrorView> {
    let name = match manifest.get("metadata"@) {
        Some(metadata) => match metadata.get("name"@) {
            Some(name) => name.as_text(),
            None => None,
        },
        None => None,
    };
    match name {
        Some(name) => Ok(name),
        None => Err(ErrorView::Yaml("YAML manifest must define metadata.name as a string"@)),
    }
}

/// The name of the pod that a manifest describes.
pub fn extract_pod_name_from_yaml_value(manifest: &YamlValue) -> (name: Result<String, AppError>)
    ensures
        viewed_result(name) == pod_name(manifest@),
{
    let name = match yaml_mapping_get(manifest, "metadata") {
        Some(metadata) => match yaml_mapping_get(metadata, "name") {
            Some(name) => as_text(name),
            None => None,
        },
        None => None,
    };
    match name {
        Some(name) => Ok(name),
        None => Err(
            AppError::Yaml("YAML manifest must define metadata.name as a string".to_string()),
        ),
    }
}

/// The name that Podman gives to the container in which commands are run.
pub open spec fn podman_container(manifest: Yaml) -> Result<Seq<char>, ErrorView> {
    match join_container(manifest) {
        Err(err) => Err(err),
        Ok(container) => match pod_name(manifest) {
            Err(err) => Err(err),
            Ok(pod) => Ok(pod + "-"@ + container),
        },
    }
}

/// The name that Podman gives to the container in which commands are run.
pub fn get_join_container_from_yaml_manifest(manifest: &YamlValue) -> (name: Result<
    String,
    AppError,
>)
    ensures
        viewed_result(name) == podman_container(manifest@),
{
    let container = match extract_join_container_from_yaml_value(manifest) {
        Ok(container) => container,
        Err(err) => {
            return Err(err);
        },
    };
    let pod = match extract_pod_name_from_yaml_value(manifest) {
        Ok(pod) => pod,
        Err(err) => {
            return Err(err);
        },
    };
    Ok(pod.concat("-").concat(container.as_str()))
}

/// The container in which commands are run is one that the manifest lists. It is the only one with
/// the label, or the only one there is.
pub proof fn the_join_container_is_listed(manifest: Yaml, name: Seq<char>) -> (k: int)
    requires
        join_container(manifest) == Ok::<Seq<char>, ErrorView>(name),
    ensures
        containers_of(manifest) is Some,
        ({
            let containers = containers_of(manifest)->0;
            &&& 0 <= k < containers.len()
            &&& container_name(containers[k]) == Some(name)
            &&& is_join_container(containers[k]) || containers.len() == 1
            &&& forall|j: int|
                0 <= j < containers.len() && is_join_container(#[trigger] containers[j]) ==> j == k
        }),
{
    let containers = containers_of(manifest)->0;
    if join_containers(containers).len() == 1 {
        the_labelled_one(containers)
    } else {
        0
    }
}

/// Where one container has the label, it is at one place.
proof fn the_labelled_one(containers: Seq<Yaml>) -> (k: int)
    requires
        join_containers(containers).len() == 1,
    ensures
        0 <= k < containers.len(),
        join_containers(containers)[0] == containers[k],
        is_join_container(containers[k]),
        forall|j: int|
            0 <= j < containers.len() && is_join_container(#[trigger] containers[j]) ==> j == k,
    decreases containers.len(),
{
    let front = containers.drop_last();
    let last = containers.len() - 1;
    if is_join_container(containers.last()) {
        no_labelled_one(front);
        assert forall|j: int|
            0 <= j < containers.len() && is_join_container(#[trigger] containers[j]) implies j
            == last by {
            if j < last {
                assert(front[j] == containers[j]);
            }
        }
        last
    } else {
        let k = the_labelled_one(front);
        assert forall|j: int|
            0 <= j < containers.len() && is_join_container(#[trigger] containers[j]) implies j
            == k by {
            if j < last {
                assert(front[j] == containers[j]);
            }
        }
        k
    }
}

/// Where the list of containers with the label is empty, none has it.
proof fn no_labelled_one(containers: Seq<Yaml>)
    requires
        join_containers(containers).len() == 0,
    ensures
        forall|j: int|
            0 <= j < containers.len() ==> !is_join_container(#[trigger] containers[j]),
    decreases containers.len(),
{
    if containers.len() > 0 {
        let front = containers.drop_last();
        no_labelled_one(front);
        assert forall|j: int| 0 <= j < containers.len() implies !is_join_container(
            #[trigger] containers[j],
        ) by {
            if j < containers.len() - 1 {
                assert(front[j] == containers[j]);
            }
        }
    }
}

} // verus!
