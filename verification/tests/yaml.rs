use std::path::PathBuf;

use lib_ria::database::parsers::parse_material;
use lib_ria::database::readers::pages;
use lib_ria::database::{BookContent, Catalog, Data, Material, Shelf, ShelfContent};
use lib_ria::{Kind, Number};
use serde_yaml::Value;

fn read_number(token: &str) -> Option<Number> {
    token.parse::<f64>().ok().map(|x| Number { bits: x.to_bits() })
}

fn text(value: &Value, key: &str) -> Option<String> {
    match value.get(key)? {
        Value::String(s) => Some(s.clone()),
        Value::Number(n) => Some(n.to_string()),
        _ => None,
    }
}

fn book_content(value: &Value) -> Option<BookContent> {
    if let Some(divider) = text(value, "DIVIDER") {
        return Some(BookContent::Divider { divider });
    }
    let name = text(value, "name")?;
    let data = PathBuf::from(text(value, "data")?);
    match value.get("PAGE")? {
        Value::String(page) => Some(BookContent::Page { page: page.clone(), name, data }),
        Value::Number(page) => Some(BookContent::PageNumberName { page: page.as_u64()?, name, data }),
        _ => None,
    }
}

fn shelf_content(value: &Value) -> Option<ShelfContent> {
    if let Some(divider) = text(value, "DIVIDER") {
        return Some(ShelfContent::Divider { divider });
    }
    let mut content = Vec::new();
    for item in value.get("content")?.as_sequence()? {
        content.push(book_content(item)?);
    }
    Some(ShelfContent::Book {
        book: text(value, "BOOK")?,
        name: text(value, "name")?,
        info: PathBuf::from(text(value, "info")?),
        content,
    })
}

fn catalog(value: &Value) -> Option<Catalog> {
    let mut shelves = Vec::new();
    for shelf in value.as_sequence()? {
        let mut content = Vec::new();
        for item in shelf.get("content")?.as_sequence()? {
            content.push(shelf_content(item)?);
        }
        shelves.push(Shelf { shelf: text(shelf, "SHELF")?, name: text(shelf, "name")?, content });
    }
    Some(shelves)
}

fn entry(value: &Value) -> Option<Data> {
    let kind = text(value, "type")?;
    if let Some(data) = text(value, "data") {
        return match kind.as_str() {
            "tabulated k" => Some(Data::TabulatedK { data }),
            "tabulated n" => Some(Data::TabulatedN { data }),
            "tabulated nk" => Some(Data::TabulatedNK { data }),
            _ => None,
        };
    }
    let wavelength_range = text(value, "wavelength_range")?;
    let coefficients = text(value, "coefficients")?;
    match kind.as_str() {
        "formula 1" => Some(Data::Formula1 { wavelength_range, coefficients }),
        "formula 2" => Some(Data::Formula2 { wavelength_range, coefficients }),
        "formula 3" => Some(Data::Formula3 { wavelength_range, coefficients }),
        "formula 4" => Some(Data::Formula4 { wavelength_range, coefficients }),
        "formula 5" => Some(Data::Formula5 { wavelength_range, coefficients }),
        "formula 6" => Some(Data::Formula6 { wavelength_range, coefficients }),
        "formula 7" => Some(Data::Formula7 { wavelength_range, coefficients }),
        "formula 8" => Some(Data::Formula8 { wavelength_range, coefficients }),
        "formula 9" => Some(Data::Formula9 { wavelength_range, coefficients }),
        _ => None,
    }
}

fn material(value: &Value) -> Option<Material> {
    let mut data = Vec::new();
    for item in value.get("DATA")?.as_sequence()? {
        data.push(entry(item)?);
    }
    Some(Material {
        references: text(value, "REFERENCES")?,
        comments: text(value, "COMMENTS")?,
        data,
        specs: value.get("SPECS").cloned(),
    })
}

fn catalog_yaml() -> &'static str {
    "
        - SHELF: main
          name: \"MAIN - simple inorganic materials\"
          content:
            - DIVIDER: \"Ag - Silver\"
            - BOOK: Ag
              name: \"Ag (Silver)\"
              info: \"main/Ag.html\"
              content:
                - DIVIDER: \"Experimental data: bulk, thick film\"
                - PAGE: Johnson
                  name: \"Johnson and Christy 1972: n,k 0.188–1.94 µm\"
                  data: \"main/Ag/Johnson.yml\"
                - PAGE: Choi
                  name: \"Choi et al. 2020: n,k 1.23–6.99 µm\"
                  data: \"main/Ag/Choi.yml\"
        "
}

fn material_yaml() -> &'static str {
    r#"
        REFERENCES: \"<a href=\"http://refractiveindex.info/download/data/2017/schott_2017-01-20b.agf\">SCHOTT Zemax catalog 2017-01-20b</a> (obtained from <a href=\"http://www.schott.com/advanced_optics/english/download/\">http://www.schott.com</a>)<br>See also <a href=\"http://refractiveindex.info/download/data/2017/schott_2017-01-20.pdf\">SCHOTT glass data sheets</a>\"
        COMMENTS: \"lead containing glass type\"
        DATA:
          - type: formula 2 
            wavelength_range: 0.37 2.5
            coefficients: 0 1.70579259 0.0133874699 0.344223052 0.0579561608 1.09601828 121.616024
          - type: tabulated k
            data: |
                0.370 5.4237E-06
                0.380 2.7852E-06
                0.390 1.1068E-06
        SPECS:
            n_is_absolute: false
            wavelength_is_vacuum: false
            temperature: 20.0 °C
            thermal_dispersion:
              - type: "Schott formula"
                coefficients: 6.02e-06 1.7e-08 -2.61e-11 1.63e-06 1.59e-09 0.269
            nd: 1.7847
            Vd: 26.08
            glass_code: 785261.492
            glass_status: standard
            density: 4.92 g/cm<sup>3</sup>
            thermal_expansion:
              - temperature_range: -30 70 °C
                coefficient: 7.9e-06 K<sup>-1</sup>
              - temperature_range: 20 300 °C
                coefficient: 8.8e-06 K<sup>-1</sup>
            dPgF: 0.0098
            climatic_resistance: 1.0
            stain_resistance: 1.0
            acid_resistance: 3.2
            alkali_resistance: 2.2
            phosphate_resistance: 3.2
        "#
}

#[test]
fn test_deserialize_catalog() {
    let value: Value = serde_yaml::from_str(catalog_yaml()).unwrap();
    let catalog: Catalog = catalog(&value).unwrap();
    let listed = pages(&catalog);
    let keys: Vec<&str> = listed.iter().map(|page| page.key.as_str()).collect();
    assert_eq!(keys, ["main:Ag:Johnson", "main:Ag:Choi"]);
    assert_eq!(listed[0].name, "Johnson and Christy 1972: n,k 0.188–1.94 µm");
    assert_eq!(listed[1].data, &PathBuf::from("main/Ag/Choi.yml"));
}

#[test]
fn test_deserialize_material() {
    let value: Value = serde_yaml::from_str(material_yaml()).unwrap();
    let material: Material = material(&value).unwrap();
    assert_eq!(material.comments, "\\\"lead containing glass type\\\"");
    assert_eq!(material.data.len(), 2);
    assert!(material.specs.is_some());
    let item = parse_material(material, "glass", "SF11", "SCHOTT", &read_number).unwrap();
    assert_eq!(item.data[0].kind(), Kind::Formula2);
    assert_eq!(item.data[1].kind(), Kind::TabulatedK);
    match &item.data[1] {
        lib_ria::DispersionData::TabulatedK { data } => {
            assert_eq!(data.len(), 3);
            assert_eq!(f64::from_bits(data[2][1].bits), 1.1068E-06);
        }
        other => panic!("unexpected entry {:?}", other),
    }
}

#[test]
fn a_numeric_page_key_in_a_catalog_file_is_its_digits() {
    let yaml = "
        - SHELF: main
          name: Main
          content:
            - BOOK: Si
              name: Silicon
              info: main/Si.html
              content:
                - PAGE: 1064
                  name: At 1064 nm
                  data: main/Si/1064.yml
        ";
    let value: Value = serde_yaml::from_str(yaml).unwrap();
    let catalog: Catalog = catalog(&value).unwrap();
    assert!(matches!(
        &catalog[0].content[0],
        ShelfContent::Book { content, .. }
            if matches!(content[0], BookContent::PageNumberName { page: 1064, .. })
    ));
    assert_eq!(pages(&catalog)[0].key, "main:Si:1064");
}
