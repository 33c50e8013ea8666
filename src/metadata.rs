//! NFT metadata forms and what an export of them holds: one numbered copy
//! of the metadata per token, and a CSV sheet of the form.

use crate::codec::digits_of;
use vstd::prelude::*;

verus! {

/// One `trait_type` / `value` pair of the metadata.
#[derive(Clone, Debug)]
pub struct Attribute {
    pub trait_type: String,
    pub value: String,
}

impl Default for Attribute {
    fn default() -> (a: Attribute)
        ensures
            a.trait_type@ == Seq::<char>::empty(),
            a.value@ == Seq::<char>::empty(),
    {
        Attribute { trait_type: String::new(), value: String::new() }
    }
}

/// The metadata of a token.
#[derive(Clone, Debug)]
pub struct Metadata {
    pub name: String,
    pub description: String,
    pub image: String,
    pub attributes: Vec<Attribute>,
}

impl Default for Metadata {
    fn default() -> (m: Metadata)
        ensures
            m.name@ == Seq::<char>::empty(),
            m.description@ == Seq::<char>::empty(),
            m.image@ == Seq::<char>::empty(),
            m.attributes@.len() == 0,
    {
        Metadata {
            name: String::new(),
            description: String::new(),
            image: String::new(),
            attributes: Vec::new(),
        }
    }
}

/// The CSV column titles for `n` attributes, without the line end.
pub open spec fn header_fields(n: nat) -> Seq<char>
    decreases n,
{
    if n == 0 {
        "name,description,image"@
    } else {
        header_fields((n - 1) as nat) + ",attributes.trait_type_"@ + digits_of((n - 1) as nat)
            + ",attributes.value_"@ + digits_of((n - 1) as nat)
    }
}

/// The CSV fields of the first `n` attributes, each preceded by a comma.
pub open spec fn attribute_fields(attributes: Seq<Attribute>, n: nat) -> Seq<char>
    decreases n,
{
    if n == 0 || n > attributes.len() {
        Seq::empty()
    } else {
        attribute_fields(attributes, (n - 1) as nat) + ","@ + attributes[n - 1].trait_type@ + ","@
            + attributes[n - 1].value@
    }
}

/// The CSV sheet of a form: the title line and one line of its values.
pub open spec fn csv_text(m: Metadata) -> Seq<char> {
    header_fields(m.attributes@.len()) + "\n"@ + m.name@ + ","@ + m.description@ + ","@ + m.image@
        + attribute_fields(m.attributes@, m.attributes@.len()) + "\n"@
}

/// The `i`-th token's metadata: the form's, named `<name> #<i>`.
pub open spec fn is_numbered_copy(copy: Metadata, m: Metadata, i: nat) -> bool {
    &&& copy.name@ == m.name@ + " #"@ + digits_of(i)
    &&& copy.description@ == m.description@
    &&& copy.image@ == m.image@
    &&& copy.attributes@ == m.attributes@
}

/// Relies on std's `Display` for `usize`: its decimal digits, without
/// leading zeros.
#[verifier::external_body]
fn decimal_text(n: usize) -> (r: String)
    ensures
        r@ == digits_of(n as nat),
{
    n.to_string()
}

fn copy_attributes(v: &Vec<Attribute>) -> (r: Vec<Attribute>)
    ensures
        r@ == v@,
{
    let mut r: Vec<Attribute> = Vec::new();
    let mut i: usize = 0;
    while i < v.len()
        invariant
            i <= v@.len(),
            r@ == v@.take(i as int),
        decreases v@.len() - i,
    {
        r.push(Attribute { trait_type: v[i].trait_type.clone(), value: v[i].value.clone() });
        i = i + 1;
        assert(r@ =~= v@.take(i as int));
    }
    assert(v@.take(i as int) =~= v@);
    r
}

/// The `i`-th token's metadata.
pub fn numbered_copy(m: &Metadata, i: usize) -> (copy: Metadata)
    ensures
        is_numbered_copy(copy, *m, i as nat),
{
    let mut name = m.name.clone();
    name.append(" #");
    let digits = decimal_text(i);
    name.append(digits.as_str());
    Metadata {
        name,
        description: m.description.clone(),
        image: m.image.clone(),
        attributes: copy_attributes(&m.attributes),
    }
}

/// The CSV sheet of the form `m`.
pub fn csv_sheet(m: &Metadata) -> (text: String)
    ensures
        text@ == csv_text(*m),
{
    let n = m.attributes.len();
    let mut text = String::from_str("name,description,image");
    let mut i: usize = 0;
    while i < n
        invariant
            i <= n,
            n == m.attributes@.len(),
            text@ == header_fields(i as nat),
        decreases n - i,
    {
        let digits = decimal_text(i);
        text.append(",attributes.trait_type_");
        text.append(digits.as_str());
        text.append(",attributes.value_");
        text.append(digits.as_str());
        i = i + 1;
    }
    text.append("\n");
    text.append(m.name.as_str());
    text.append(",");
    text.append(m.description.as_str());
    text.append(",");
    text.append(m.image.as_str());
    let ghost start = text@;
    let mut k: usize = 0;
    while k < n
        invariant
            k <= n,
            n == m.attributes@.len(),
            text@ == start + attribute_fields(m.attributes@, k as nat),
        decreases n - k,
    {
        text.append(",");
        text.append(m.attributes[k].trait_type.as_str());
        text.append(",");
        text.append(m.attributes[k].value.as_str());
        k = k + 1;
        assert(text@ =~= start + attribute_fields(m.attributes@, k as nat));
    }
    text.append("\n");
    assert(text@ =~= csv_text(*m));
    text
}

/// One JSON file of an export: its name and the metadata it holds.
pub struct MetadataFile {
    pub file_name: String,
    pub metadata: Metadata,
}

/// What an export of a form holds: `<i>.json` for each token `i`, the CSV
/// sheet `<project>.csv`, all packed as `<project>.zip`.
pub struct MetadataExport {
    pub json_files: Vec<MetadataFile>,
    pub csv_file_name: String,
    pub csv_data: String,
    pub zip_file_name: String,
}

/// The export of the form `metadata` for `count` tokens of `project_name`.
pub fn export_metadata(project_name: &String, metadata: &Metadata, count: usize) -> (e:
    MetadataExport)
    ensures
        e.json_files@.len() == count,
        forall|i: int|
            0 <= i < count ==> (#[trigger] e.json_files@[i]).file_name@ == digits_of(i as nat)
                + ".json"@ && is_numbered_copy(e.json_files@[i].metadata, *metadata, i as nat),
        e.csv_file_name@ == project_name@ + ".csv"@,
        e.csv_data@ == csv_text(*metadata),
        e.zip_file_name@ == project_name@ + ".zip"@,
{
    let mut json_files: Vec<MetadataFile> = Vec::new();
    let mut i: usize = 0;
    while i < count
        invariant
            i <= count,
            json_files@.len() == i,
            forall|j: int|
                0 <= j < i ==> (#[trigger] json_files@[j]).file_name@ == digits_of(j as nat)
                    + ".json"@ && is_numbered_copy(json_files@[j].metadata, *metadata, j as nat),
        decreases count - i,
    {
        let mut file_name = decimal_text(i);
        file_name.append(".json");
        json_files.push(MetadataFile { file_name, metadata: numbered_copy(metadata, i) });
        i = i + 1;
    }
    let mut csv_file_name = project_name.clone();
    csv_file_name.append(".csv");
    let mut zip_file_name = project_name.clone();
    zip_file_name.append(".zip");
    MetadataExport { json_files, csv_file_name, csv_data: csv_sheet(metadata), zip_file_name }
}

/// The form for one metadata design exported as numbered tokens.
pub struct SingleMetadataWindow {
    pub project_name: String,
    pub is_open: bool,
    pub metadata: Metadata,
    pub metadata_count: usize,
    pub show_metadata: bool,
}

/// The form for metadata exported as numbered tokens with a CSV sheet.
pub struct MultiMetadataWindow {
    pub project_name: String,
    pub is_open: bool,
    pub metadata: Metadata,
    pub metadata_count: usize,
    pub show_metadata: bool,
}

impl Default for SingleMetadataWindow {
    fn default() -> (w: SingleMetadataWindow)
        ensures
            w.project_name@ == Seq::<char>::empty(),
            !w.is_open,
            w.metadata.attributes@.len() == 0,
            w.metadata_count == 0,
            !w.show_metadata,
    {
        SingleMetadataWindow {
            project_name: String::new(),
            is_open: false,
            metadata: Metadata::default(),
            metadata_count: 0,
            show_metadata: false,
        }
    }
}

impl Default for MultiMetadataWindow {
    fn default() -> (w: MultiMetadataWindow)
        ensures
            w.project_name@ == Seq::<char>::empty(),
            !w.is_open,
            w.metadata.attributes@.len() == 0,
            w.metadata_count == 0,
            !w.show_metadata,
    {
        MultiMetadataWindow {
            project_name: String::new(),
            is_open: false,
            metadata: Metadata::default(),
            metadata_count: 0,
            show_metadata: false,
        }
    }
}

impl SingleMetadataWindow {
    /// Adds an empty attribute at the end of the form.
    pub fn add_attribute(&mut self)
        ensures
            final(self).metadata.attributes@.len() == old(self).metadata.attributes@.len() + 1,
            final(self).metadata.attributes@.drop_last() == old(self).metadata.attributes@,
            final(self).metadata.attributes@.last().trait_type@ == Seq::<char>::empty(),
            final(self).metadata.attributes@.last().value@ == Seq::<char>::empty(),
    {
        self.metadata.attributes.push(Attribute::default());
        assert(self.metadata.attributes@.drop_last() =~= old(self).metadata.attributes@);
    }

    /// Removes the last attribute of the form, if there is one.
    pub fn remove_last_attribute(&mut self)
        ensures
            old(self).metadata.attributes@.len() == 0 ==> final(self).metadata.attributes@.len()
                == 0,
            old(self).metadata.attributes@.len() > 0 ==> final(self).metadata.attributes@ == old(
                self,
            ).metadata.attributes@.drop_last(),
    {
        self.metadata.attributes.pop();
    }

    /// The export of the form; see `export_metadata`.
    pub fn export(&self) -> (e: MetadataExport)
        ensures
            e.json_files@.len() == self.metadata_count,
            forall|i: int|
                0 <= i < self.metadata_count ==> (#[trigger] e.json_files@[i]).file_name@
                    == digits_of(i as nat) + ".json"@ && is_numbered_copy(
                    e.json_files@[i].metadata,
                    self.metadata,
                    i as nat,
                ),
            e.csv_file_name@ == self.project_name@ + ".csv"@,
            e.csv_data@ == csv_text(self.metadata),
            e.zip_file_name@ == self.project_name@ + ".zip"@,
    {
        export_metadata(&self.project_name, &self.metadata, self.metadata_count)
    }
}

impl MultiMetadataWindow {
    /// Adds an empty attribute at the end of the form.
    pub fn add_attribute(&mut self)
        ensures
            final(self).metadata.attributes@.len() == old(self).metadata.attributes@.len() + 1,
            final(self).metadata.attributes@.drop_last() == old(self).metadata.attributes@,
            final(self).metadata.attributes@.last().trait_type@ == Seq::<char>::empty(),
            final(self).metadata.attributes@.last().value@ == Seq::<char>::empty(),
    {
        self.metadata.attributes.push(Attribute::default());
        assert(self.metadata.attributes@.drop_last() =~= old(self).metadata.attributes@);
    }

    /// Removes the last attribute of the form, if there is one.
    pub fn remove_last_attribute(&mut self)
        ensures
            old(self).metadata.attributes@.len() == 0 ==> final(self).metadata.attributes@.len()
                == 0,
            old(self).metadata.attributes@.len() > 0 ==> final(self).metadata.attributes@ == old(
                self,
            ).metadata.attributes@.drop_last(),
    {
        self.metadata.attributes.pop();
    }

    /// The export of the form; see `export_metadata`.
    pub fn export(&self) -> (e: MetadataExport)
        ensures
            e.json_files@.len() == self.metadata_count,
            forall|i: int|
                0 <= i < self.metadata_count ==> (#[trigger] e.json_files@[i]).file_name@
                    == digits_of(i as nat) + ".json"@ && is_numbered_copy(
                    e.json_files@[i].metadata,
                    self.metadata,
                    i as nat,
                ),
            e.csv_file_name@ == self.project_name@ + ".csv"@,
            e.csv_data@ == csv_text(self.metadata),
            e.zip_file_name@ == self.project_name@ + ".zip"@,
    {
        export_metadata(&self.project_name, &self.metadata, self.metadata_count)
    }
}

} // verus!
