use quadratic_core::a1::{A1Error, RefRangeBounds, SheetCellRefRange, SheetNameIdMap};
use quadratic_core::SheetId;

fn sheets() -> (SheetId, SheetId, SheetNameIdMap) {
    let first = SheetId { id: uuid::Uuid::new_v4() };
    let second = SheetId { id: uuid::Uuid::new_v4() };
    let mut map = SheetNameIdMap::new();
    map.insert("Sheet1".to_string(), first);
    map.insert("My Sheet".to_string(), second);
    (first, second, map)
}

#[test]
fn test_parse_reference() {
    let (first, second, map) = sheets();
    assert_eq!(
        SheetCellRefRange::parse("A1:B2", &first, &map),
        Ok(SheetCellRefRange { sheet_id: first, cells: RefRangeBounds::new_relative(1, 1, 2, 2) })
    );
    assert_eq!(
        SheetCellRefRange::parse("'my sheet'!C", &first, &map),
        Ok(SheetCellRefRange { sheet_id: second, cells: RefRangeBounds::new_infinite_col(3) })
    );
    assert_eq!(
        SheetCellRefRange::parse("SHEET1!3:5", &second, &map),
        Ok(SheetCellRefRange { sheet_id: first, cells: RefRangeBounds::new_infinite_rows(3, 5) })
    );
    assert_eq!(
        SheetCellRefRange::parse("Sheet1!*", &second, &map),
        Ok(SheetCellRefRange { sheet_id: first, cells: RefRangeBounds::all() })
    );
}

#[test]
fn test_parse_reference_errors() {
    let (first, _, map) = sheets();
    assert_eq!(
        SheetCellRefRange::parse("Sheet9!A1", &first, &map),
        Err(A1Error::InvalidSheetName("Sheet9".to_string()))
    );
    assert_eq!(
        SheetCellRefRange::parse("My Sheet!A1", &first, &map),
        Err(A1Error::InvalidSheetNameMissingQuotes("My Sheet".to_string()))
    );
    assert_eq!(
        SheetCellRefRange::parse("'Sheet1!A1", &first, &map),
        Err(A1Error::MismatchedQuotes("'Sheet1".to_string()))
    );
    assert_eq!(
        SheetCellRefRange::parse("Sheet1!A0", &first, &map),
        Err(A1Error::InvalidRange("A0".to_string()))
    );
    assert_eq!(
        SheetCellRefRange::parse("", &first, &map),
        Err(A1Error::InvalidRange("".to_string()))
    );
    assert_eq!(
        SheetCellRefRange::parse("Sheet1!", &first, &map),
        Err(A1Error::InvalidRange("".to_string()))
    );
}

#[test]
fn test_reference_text_and_back() {
    let (first, second, map) = sheets();
    for (name, id) in [("Sheet1", first), ("My Sheet", second)] {
        for text in ["A1", "B2:D4", "$B$2:D", "C:E", "3:7", "A9:9", "F6:", "*"] {
            let cells = RefRangeBounds::from_str(text).unwrap();
            let reference = SheetCellRefRange { sheet_id: id, cells };
            let written = reference.to_a1_string(name);
            assert_eq!(SheetCellRefRange::parse(&written, &first, &map), Ok(reference), "{written}");
        }
    }
    let reference = SheetCellRefRange { sheet_id: second, cells: RefRangeBounds::new_relative(1, 1, 2, 2) };
    assert_eq!(reference.to_a1_string("My Sheet"), "'My Sheet'!A1:B2");
    assert_eq!(reference.to_a1_string("Sheet1"), "Sheet1!A1:B2");
    assert_eq!(reference.to_a1_string("It's"), "'It''s'!A1:B2");
}
