use web3_toys::metadata::{csv_sheet, export_metadata, numbered_copy, Attribute, Metadata, MultiMetadataWindow, SingleMetadataWindow};

fn sample() -> Metadata {
    Metadata {
        name: "Toy".to_string(),
        description: "a toy".to_string(),
        image: "ipfs://img".to_string(),
        attributes: vec![
            Attribute { trait_type: "color".to_string(), value: "red".to_string() },
            Attribute { trait_type: "size".to_string(), value: "L".to_string() },
        ],
    }
}

#[test]
fn csv_sheet_of_a_form() {
    assert_eq!(
        csv_sheet(&sample()),
        "name,description,image,attributes.trait_type_0,attributes.value_0,attributes.trait_type_1,attributes.value_1\nToy,a toy,ipfs://img,color,red,size,L\n"
    );
}

#[test]
fn csv_sheet_without_attributes() {
    assert_eq!(csv_sheet(&Metadata::default()), "name,description,image\n,,\n");
}

#[test]
fn numbered_copies() {
    let c = numbered_copy(&sample(), 12);
    assert_eq!(c.name, "Toy #12");
    assert_eq!(c.description, "a toy");
    assert_eq!(c.attributes.len(), 2);
    assert_eq!(c.attributes[1].value, "L");
}

#[test]
fn export_lists_every_file() {
    let e = export_metadata(&"toys".to_string(), &sample(), 3);
    let names: Vec<&str> = e.json_files.iter().map(|f| f.file_name.as_str()).collect();
    assert_eq!(names, vec!["0.json", "1.json", "2.json"]);
    assert_eq!(e.json_files[2].metadata.name, "Toy #2");
    assert_eq!(e.csv_file_name, "toys.csv");
    assert_eq!(e.zip_file_name, "toys.zip");
    assert_eq!(e.csv_data, csv_sheet(&sample()));
    assert!(export_metadata(&"p".to_string(), &sample(), 0).json_files.is_empty());
}

#[test]
fn form_attributes_grow_and_shrink() {
    let mut w = SingleMetadataWindow::default();
    w.add_attribute();
    w.add_attribute();
    assert_eq!(w.metadata.attributes.len(), 2);
    w.remove_last_attribute();
    assert_eq!(w.metadata.attributes.len(), 1);
    w.remove_last_attribute();
    w.remove_last_attribute();
    assert!(w.metadata.attributes.is_empty());
    w.project_name = "p".to_string();
    w.metadata_count = 2;
    assert_eq!(w.export().json_files.len(), 2);
}

#[test]
fn multi_form_exports_like_single() {
    let mut w = MultiMetadataWindow::default();
    w.project_name = "multi".to_string();
    w.metadata = sample();
    w.metadata_count = 1;
    w.add_attribute();
    let e = w.export();
    assert_eq!(e.json_files[0].metadata.name, "Toy #0");
    assert!(e.csv_data.starts_with("name,description,image,attributes.trait_type_0"));
    assert!(e.csv_data.ends_with(",size,L,,\n"));
    assert_eq!(e.zip_file_name, "multi.zip");
}
