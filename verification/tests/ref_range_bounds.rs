use quadratic_core::a1::{
    column_from_name, column_name, A1Error, CellRefCoord, CellRefRangeEnd, RefRangeBounds,
    UNBOUNDED,
};
use quadratic_core::{Pos, Rect};

fn a1(text: &str) -> RefRangeBounds {
    RefRangeBounds::from_str(text).unwrap()
}

#[test]
fn test_new_relative() {
    let range = RefRangeBounds::new_relative(1, 2, 3, 4);
    assert_eq!(range.start.col.coord, 1);
    assert_eq!(range.start.row.coord, 2);
    assert_eq!(range.end.col.coord, 3);
    assert_eq!(range.end.row.coord, 4);
}

#[test]
fn test_new_infinite_row() {
    let range = RefRangeBounds::new_infinite_row(1);
    assert_eq!(range.start.col.coord, 1);
    assert_eq!(range.start.row.coord, 1);
    assert_eq!(range.end.row.coord, 1);
    assert!(range.end.col.is_unbounded());
}

#[test]
fn test_new_infinite_col() {
    let range = RefRangeBounds::new_infinite_col(1);
    assert_eq!(range.start.col.coord, 1);
    assert_eq!(range.start.row.coord, 1);
    assert_eq!(range.end.col.coord, 1);
    assert!(range.end.row.is_unbounded());
}

#[test]
fn test_new_infinite_rows() {
    let range = RefRangeBounds::new_infinite_rows(1, 2);
    assert_eq!(range.start.col.coord, 1);
    assert_eq!(range.start.row.coord, 1);
    assert_eq!(range.end.row.coord, 2);
    assert!(range.end.col.is_unbounded());
}

#[test]
fn test_new_infinite_cols() {
    let range = RefRangeBounds::new_infinite_cols(1, 2);
    assert_eq!(range.start.col.coord, 1);
    assert_eq!(range.start.row.coord, 1);
    assert_eq!(range.end.col.coord, 2);
    assert!(range.end.row.is_unbounded());
}

#[test]
fn test_display_row_range() {
    let range = RefRangeBounds::new_infinite_row(1);
    assert_eq!(range.to_string(), "A1:1");

    let range = RefRangeBounds::new_infinite_rows(1, 2);
    assert_eq!(range.to_string(), "1:2");
}

#[test]
fn test_display_infinite_a_n() {
    let range = a1("15:");
    assert_eq!(range.to_string(), "A15:");
}

#[test]
fn test_constructors_reorder() {
    assert_eq!(
        RefRangeBounds::new_relative(3, 4, 1, 2),
        RefRangeBounds::new_relative(1, 2, 3, 4)
    );
    assert_eq!(
        RefRangeBounds::new_relative(3, 2, 1, 4),
        RefRangeBounds::new_relative(1, 2, 3, 4)
    );
    assert_eq!(
        RefRangeBounds::new_infinite_rows(5, 2),
        RefRangeBounds::new_infinite_rows(2, 5)
    );
    assert_eq!(
        RefRangeBounds::new_infinite_cols(5, 2),
        RefRangeBounds::new_infinite_cols(2, 5)
    );
    let abs_b = CellRefCoord::new_abs(2);
    let rel_a = CellRefCoord::new_rel(1);
    let range = RefRangeBounds::new(
        CellRefRangeEnd { col: abs_b, row: CellRefCoord::new_rel(2) },
        CellRefRangeEnd { col: rel_a, row: CellRefCoord::new_abs(1) },
    );
    assert_eq!(range.start.col, rel_a);
    assert_eq!(range.end.col, abs_b);
    assert_eq!(range.start.row, CellRefCoord::new_abs(1));
    assert_eq!(range.end.row, CellRefCoord::new_rel(2));
    assert!(range.is_valid());
}

#[test]
fn test_corners() {
    assert_eq!(CellRefRangeEnd::start(), CellRefRangeEnd::new_relative_xy(1, 1));
    assert!(CellRefRangeEnd::unbounded().col.is_unbounded());
    assert!(CellRefRangeEnd::unbounded().row.is_unbounded());
    assert_eq!(CellRefCoord::unbounded().coord, UNBOUNDED);
    assert_eq!(CellRefCoord::start(), CellRefCoord::new_rel(1));
    let end = CellRefRangeEnd::new_infinite_row_end(7);
    assert!(end.col.is_unbounded());
    assert_eq!(end.row(), 7);
    let end = CellRefRangeEnd::new_infinite_col_end(7);
    assert!(end.row.is_unbounded());
    assert_eq!(end.col(), 7);
    assert_eq!(
        CellRefRangeEnd::new_relative_pos(Pos::new(3, 9)),
        CellRefRangeEnd::new_relative_xy(3, 9)
    );
    assert!(!CellRefCoord { coord: 0, is_absolute: false }.is_valid());
    assert!(!CellRefCoord { coord: UNBOUNDED, is_absolute: true }.is_valid());
    assert!(CellRefCoord::new_abs(1).is_valid());
    assert!(!RefRangeBounds {
        start: CellRefRangeEnd::new_relative_xy(5, 5),
        end: CellRefRangeEnd::new_relative_xy(1, 9)
    }
    .is_valid());
}

#[test]
fn test_display() {
    assert_eq!(RefRangeBounds::all().to_string(), "*");
    assert_eq!(RefRangeBounds::new_infinite_col(1).to_string(), "A");
    assert_eq!(RefRangeBounds::new_infinite_col(27).to_string(), "AA");
    assert_eq!(RefRangeBounds::new_infinite_cols(2, 4).to_string(), "B:D");
    assert_eq!(RefRangeBounds::new_infinite_row(3).to_string(), "A3:3");
    assert_eq!(RefRangeBounds::new_infinite_rows(3, 5).to_string(), "3:5");
    assert_eq!(RefRangeBounds::new_relative(1, 1, 1, 1).to_string(), "A1");
    assert_eq!(RefRangeBounds::new_relative_pos(Pos::new(2, 2)).to_string(), "B2");
    assert_eq!(RefRangeBounds::new_relative(1, 1, 2, 2).to_string(), "A1:B2");
    assert_eq!(RefRangeBounds::new_relative(26, 1, 52, 703).to_string(), "Z1:AZ703");
    assert_eq!(RefRangeBounds::new_relative(702, 9, 703, 10).to_string(), "ZZ9:AAA10");
    let range = RefRangeBounds {
        start: CellRefRangeEnd { col: CellRefCoord::new_abs(2), row: CellRefCoord::new_rel(3) },
        end: CellRefRangeEnd { col: CellRefCoord::new_rel(4), row: CellRefCoord::new_abs(5) },
    };
    assert_eq!(range.to_string(), "$B3:D$5");
    let range = RefRangeBounds {
        start: CellRefRangeEnd::new_relative_xy(2, 3),
        end: CellRefRangeEnd::new_infinite_col_end(4),
    };
    assert_eq!(range.to_string(), "B3:D");
    let range = RefRangeBounds {
        start: CellRefRangeEnd::new_relative_xy(2, 3),
        end: CellRefRangeEnd::new_infinite_row_end(5),
    };
    assert_eq!(range.to_string(), "B3:5");
    let range = RefRangeBounds {
        start: CellRefRangeEnd::new_relative_xy(2, 3),
        end: CellRefRangeEnd::unbounded(),
    };
    assert_eq!(range.to_string(), "B3:");
    let range = RefRangeBounds {
        start: CellRefRangeEnd { col: CellRefCoord::new_rel(1), row: CellRefCoord::new_abs(3) },
        end: CellRefRangeEnd { col: CellRefCoord::unbounded(), row: CellRefCoord::new_rel(3) },
    };
    assert_eq!(range.to_string(), "A$3:3");
    let range = RefRangeBounds {
        start: CellRefRangeEnd { col: CellRefCoord::new_abs(1), row: CellRefCoord::new_rel(1) },
        end: CellRefRangeEnd { col: CellRefCoord::new_abs(1), row: CellRefCoord::unbounded() },
    };
    assert_eq!(range.to_string(), "$A");
    let range = RefRangeBounds {
        start: CellRefRangeEnd::unbounded(),
        end: CellRefRangeEnd::unbounded(),
    };
    assert_eq!(range.to_string(), "*");
    let range = RefRangeBounds {
        start: CellRefRangeEnd::new_relative_xy(UNBOUNDED - 1, UNBOUNDED - 1),
        end: CellRefRangeEnd::new_relative_xy(UNBOUNDED - 1, UNBOUNDED - 1),
    };
    assert_eq!(range.to_string(), "CRPXNLSKVLJFHF9223372036854775806");
    let range = RefRangeBounds {
        start: CellRefRangeEnd { col: CellRefCoord::new_rel(0), row: CellRefCoord::new_rel(-12) },
        end: CellRefRangeEnd { col: CellRefCoord::new_rel(2), row: CellRefCoord::new_rel(i64::MIN) },
    };
    assert_eq!(range.to_string(), "-12:B-9223372036854775808");
}

#[test]
fn test_parse() {
    assert_eq!(a1("*"), RefRangeBounds::all());
    assert_eq!(a1("A1"), RefRangeBounds::new_relative(1, 1, 1, 1));
    assert_eq!(a1("a1"), RefRangeBounds::new_relative(1, 1, 1, 1));
    assert_eq!(a1("A1:B2"), RefRangeBounds::new_relative(1, 1, 2, 2));
    assert_eq!(a1("B2:A1"), RefRangeBounds::new_relative(1, 1, 2, 2));
    assert_eq!(a1("A2:B1"), RefRangeBounds::new_relative(1, 1, 2, 2));
    assert_eq!(a1("aa001:Ab10"), RefRangeBounds::new_relative(27, 1, 28, 10));
    assert_eq!(a1("A"), RefRangeBounds::new_infinite_col(1));
    assert_eq!(a1("C:D"), RefRangeBounds::new_infinite_cols(3, 4));
    assert_eq!(a1("D:C"), RefRangeBounds::new_infinite_cols(3, 4));
    assert_eq!(a1("3"), RefRangeBounds::new_infinite_row(3));
    assert_eq!(a1("A3:3"), RefRangeBounds::new_infinite_row(3));
    assert_eq!(a1("3:5"), RefRangeBounds::new_infinite_rows(3, 5));
    assert_eq!(a1("5:3"), RefRangeBounds::new_infinite_rows(3, 5));
    assert_eq!(
        a1("15:"),
        RefRangeBounds {
            start: CellRefRangeEnd::new_relative_xy(1, 15),
            end: CellRefRangeEnd::unbounded()
        }
    );
    assert_eq!(a1("A1:"), RefRangeBounds::all());
    assert_eq!(
        a1("$B$3:D5"),
        RefRangeBounds {
            start: CellRefRangeEnd { col: CellRefCoord::new_abs(2), row: CellRefCoord::new_abs(3) },
            end: CellRefRangeEnd::new_relative_xy(4, 5),
        }
    );
    assert_eq!(
        a1("$5:$7"),
        RefRangeBounds {
            start: CellRefRangeEnd { col: CellRefCoord::new_rel(1), row: CellRefCoord::new_abs(5) },
            end: CellRefRangeEnd { col: CellRefCoord::unbounded(), row: CellRefCoord::new_abs(7) },
        }
    );
    assert_eq!(
        a1("$B2:A$1"),
        RefRangeBounds {
            start: CellRefRangeEnd { col: CellRefCoord::new_rel(1), row: CellRefCoord::new_abs(1) },
            end: CellRefRangeEnd { col: CellRefCoord::new_abs(2), row: CellRefCoord::new_rel(2) },
        }
    );
    assert_eq!(
        a1("CRPXNLSKVLJFHF9223372036854775806"),
        RefRangeBounds::new_relative(UNBOUNDED - 1, UNBOUNDED - 1, UNBOUNDED - 1, UNBOUNDED - 1)
    );
}

fn invalid(text: &str) {
    assert_eq!(
        RefRangeBounds::from_str(text),
        Err(A1Error::InvalidRange(text.to_string())),
        "{text}"
    );
}

#[test]
fn test_parse_errors() {
    invalid("");
    invalid(":");
    invalid(":A1");
    invalid(":5");
    invalid("A0");
    invalid("0");
    invalid("A1:B0");
    invalid("A-1");
    invalid("$");
    invalid("$$A1");
    invalid("A$");
    invalid("$:A");
    invalid("A1$");
    invalid("1A");
    invalid("A1:B2:C3");
    invalid("A 1");
    invalid(" A1");
    invalid("A1 ");
    invalid("**");
    invalid("*:A1");
    invalid("A1:*");
    invalid("Ä1");
    invalid("A١");
    invalid("A9223372036854775807");
    invalid("A99999999999999999999999999");
    invalid("CRPXNLSKVLJFHG1");
    invalid("CRPXNLSKVLJFHH1");
    invalid("ZZZZZZZZZZZZZZZZZZZZ1");
    invalid("A1!");
}

#[test]
fn test_display_then_parse() {
    let coords = [
        CellRefCoord::new_rel(1),
        CellRefCoord::new_abs(1),
        CellRefCoord::new_rel(2),
        CellRefCoord::new_abs(3),
        CellRefCoord::new_rel(27),
        CellRefCoord::new_rel(UNBOUNDED - 1),
        CellRefCoord::unbounded(),
    ];
    let mut seen = 0;
    for sc in coords {
        for sr in coords {
            for ec in coords {
                for er in coords {
                    let range = RefRangeBounds {
                        start: CellRefRangeEnd { col: sc, row: sr },
                        end: CellRefRangeEnd { col: ec, row: er },
                    };
                    if !range.is_valid() {
                        continue;
                    }
                    let text = range.to_string();
                    let back = RefRangeBounds::from_str(&text);
                    if sc.is_unbounded() || sr.is_unbounded() {
                        let mut anchored = range;
                        if sc.is_unbounded() {
                            anchored.start.col = CellRefCoord::start();
                        }
                        if sr.is_unbounded() {
                            anchored.start.row = CellRefCoord::start();
                        }
                        assert_eq!(back, Ok(anchored), "{text}");
                    } else {
                        assert_eq!(back, Ok(range), "{text}");
                    }
                    seen += 1;
                }
            }
        }
    }
    assert!(seen > 500);
}

#[test]
fn test_contains() {
    let range = RefRangeBounds::new_relative(2, 3, 4, 5);
    assert!(range.contains(2, 3));
    assert!(range.contains(4, 5));
    assert!(range.contains(3, 4));
    assert!(!range.contains(1, 3));
    assert!(!range.contains(5, 3));
    assert!(!range.contains(2, 2));
    assert!(!range.contains(2, 6));
    assert!(range.contains_pos(Pos::new(4, 3)));
    assert!(!range.contains_pos(Pos::new(4, 6)));
    let cols = RefRangeBounds::new_infinite_cols(2, 3);
    assert!(cols.contains(2, 1));
    assert!(cols.contains(3, i64::MAX));
    assert!(!cols.contains(4, 1));
    assert!(!cols.contains(1, 1));
    let rows = RefRangeBounds::new_infinite_row(7);
    assert!(rows.contains(1, 7));
    assert!(rows.contains(1_000_000, 7));
    assert!(!rows.contains(1, 8));
    assert!(RefRangeBounds::all().contains(123, 456));
    assert!(!RefRangeBounds::all().contains(0, 456));
    let tail = a1("C4:");
    assert!(tail.contains(3, 4));
    assert!(tail.contains(300, 400));
    assert!(!tail.contains(2, 4));
    let open_start = RefRangeBounds {
        start: CellRefRangeEnd::unbounded(),
        end: CellRefRangeEnd::new_relative_xy(2, 2),
    };
    assert!(open_start.contains(1, 1));
    assert!(open_start.contains(-5, 2));
    assert!(!open_start.contains(3, 1));
    let reversed = RefRangeBounds {
        start: CellRefRangeEnd::new_relative_xy(5, 5),
        end: CellRefRangeEnd::new_relative_xy(1, 1),
    };
    assert!(!reversed.contains(3, 3));
}

#[test]
fn test_intersection() {
    assert_eq!(
        RefRangeBounds::new_relative(1, 1, 5, 5).intersection(&RefRangeBounds::new_relative(3, 3, 10, 10)),
        Some(RefRangeBounds::new_relative(3, 3, 5, 5))
    );
    assert_eq!(
        RefRangeBounds::new_relative(1, 1, 2, 2).intersection(&RefRangeBounds::new_relative(3, 3, 4, 4)),
        None
    );
    assert_eq!(
        RefRangeBounds::new_relative(1, 1, 2, 2).intersection(&RefRangeBounds::new_relative(2, 2, 4, 4)),
        Some(RefRangeBounds::new_relative(2, 2, 2, 2))
    );
    assert_eq!(
        a1("B:D").intersection(&a1("3:5")),
        Some(RefRangeBounds::new_relative(2, 3, 4, 5))
    );
    assert_eq!(a1("B:D").intersection(&a1("C:F")), Some(a1("C:D")));
    assert_eq!(a1("B:D").intersection(&a1("E:F")), None);
    assert_eq!(a1("*").intersection(&a1("$B$2:$C$3")), Some(a1("B2:C3")));
    assert_eq!(a1("*").intersection(&a1("*")), Some(a1("*")));
    assert_eq!(a1("B2:").intersection(&a1("D:E")), Some(a1("D2:E")));
    assert_eq!(a1("B2:").intersection(&a1("C3:")), Some(a1("C3:")));
    let open_start = RefRangeBounds {
        start: CellRefRangeEnd::unbounded(),
        end: CellRefRangeEnd::new_relative_xy(4, 4),
    };
    assert_eq!(open_start.intersection(&open_start), Some(open_start));
    assert_eq!(open_start.intersection(&a1("C3:")), Some(a1("C3:D4")));
    let reversed = RefRangeBounds {
        start: CellRefRangeEnd::new_relative_xy(5, 5),
        end: CellRefRangeEnd::new_relative_xy(1, 1),
    };
    assert_eq!(reversed.intersection(&a1("*")), None);
}

#[test]
fn test_intersection_laws() {
    let ranges = [
        a1("*"),
        a1("A1"),
        a1("B2:D4"),
        a1("$C$3:E5"),
        a1("B:C"),
        a1("2:3"),
        a1("C3:"),
        a1("D"),
        a1("A4:4"),
        a1("F6:G"),
        RefRangeBounds { start: CellRefRangeEnd::unbounded(), end: CellRefRangeEnd::new_relative_xy(3, 3) },
        RefRangeBounds { start: CellRefRangeEnd::new_relative_xy(4, 4), end: CellRefRangeEnd::new_relative_xy(2, 2) },
    ];
    for a in ranges {
        for b in ranges {
            let both = a.intersection(&b);
            assert_eq!(both, b.intersection(&a));
            if both.is_some() {
                assert!(a.might_intersect(&b));
            }
            if a.is_valid() && b.is_valid() {
                assert_eq!(a.might_intersect(&b), both.is_some());
            }
            for x in 0..9 {
                for y in 0..9 {
                    let in_both = a.contains(x, y) && b.contains(x, y);
                    match both {
                        Some(c) => assert_eq!(c.contains(x, y), in_both),
                        None => assert!(!in_both),
                    }
                }
            }
        }
    }
}

#[test]
fn test_might_intersect() {
    assert!(a1("A1:C3").might_intersect(&a1("C3:E5")));
    assert!(!a1("A1:C3").might_intersect(&a1("D4:E5")));
    assert!(a1("B:B").might_intersect(&a1("2:2")));
    assert!(!a1("B:B").might_intersect(&a1("C:C")));
    let reversed = RefRangeBounds {
        start: CellRefRangeEnd::new_relative_xy(5, 5),
        end: CellRefRangeEnd::new_relative_xy(1, 1),
    };
    assert!(reversed.might_intersect(&a1("C3")));
    assert_eq!(reversed.intersection(&a1("C3")), None);
}

#[test]
fn test_translate() {
    assert_eq!(a1("B2:D4").translate(1, 2), Ok(a1("C4:E6")));
    assert_eq!(a1("B2:D4").translate(-1, -1), Ok(a1("A1:C3")));
    assert_eq!(a1("B2:D4").translate(0, 0), Ok(a1("B2:D4")));
    assert_eq!(a1("$B$2:D4").translate(1, 1), Ok(a1("$C$3:E5")));
    assert_eq!(a1("B:D").translate(1, 5), Ok(RefRangeBounds {
        start: CellRefRangeEnd::new_relative_xy(3, 6),
        end: CellRefRangeEnd::new_infinite_col_end(5),
    }));
    assert_eq!(a1("3:5").translate(0, -2), Ok(a1("1:3")));
    assert_eq!(a1("*").translate(0, 0), Ok(a1("*")));
    assert_eq!(a1("C3:").translate(-2, -2), Ok(a1("*")));
    let open = RefRangeBounds { start: CellRefRangeEnd::unbounded(), end: CellRefRangeEnd::unbounded() };
    assert_eq!(open.translate(i64::MIN, i64::MAX), Ok(open));
}

#[test]
fn test_translate_out_of_bounds() {
    assert_eq!(
        a1("B2:D4").translate(-2, 0),
        Err(A1Error::OutOfBounds("B2:D4".to_string()))
    );
    assert_eq!(
        a1("B2:D4").translate(0, -2),
        Err(A1Error::OutOfBounds("B2:D4".to_string()))
    );
    assert_eq!(
        a1("$B$2").translate(-2, 0),
        Err(A1Error::OutOfBounds("$B$2".to_string()))
    );
    assert_eq!(a1("3:5").translate(0, -3), Err(A1Error::OutOfBounds("3:5".to_string())));
    assert_eq!(a1("A1").translate(i64::MAX, 0), Err(A1Error::OutOfBounds("A1".to_string())));
    assert_eq!(a1("A1").translate(i64::MAX - 1, 0), Err(A1Error::OutOfBounds("A1".to_string())));
    assert_eq!(
        a1("A1").translate(i64::MAX - 2, 0),
        Ok(RefRangeBounds::new_relative(UNBOUNDED - 1, 1, UNBOUNDED - 1, 1))
    );
    assert_eq!(a1("B2").translate(i64::MIN, 0), Err(A1Error::OutOfBounds("B2".to_string())));
}

#[test]
fn test_translate_and_back() {
    for text in ["A1", "B2:D4", "$B2:D$4", "B:D", "3:5", "C3:", "*", "A7:7", "F6:G"] {
        let range = a1(text);
        for (dx, dy) in [(0, 0), (1, 0), (0, 1), (3, 4), (-1, 0), (0, -1), (-2, -2), (100, -1)] {
            if let Ok(moved) = range.translate(dx, dy) {
                assert_eq!(moved.translate(-dx, -dy), Ok(range), "{text} by {dx}, {dy}");
                assert!(moved.is_valid());
                for x in 1..8 {
                    for y in 1..8 {
                        assert_eq!(range.contains(x, y), moved.contains(x + dx, y + dy));
                    }
                }
            }
        }
    }
}

#[test]
fn test_enumeration() {
    let range = a1("B2:D3");
    assert!(range.is_finite());
    assert_eq!(range.count(), Some(6));
    assert_eq!(range.col_count(), Some(3));
    assert_eq!(range.row_count(), Some(2));
    let cells: Vec<Pos> = (0..6).map(|i| range.pos_at(i).unwrap()).collect();
    assert_eq!(
        cells,
        vec![
            Pos::new(2, 2),
            Pos::new(3, 2),
            Pos::new(4, 2),
            Pos::new(2, 3),
            Pos::new(3, 3),
            Pos::new(4, 3)
        ]
    );
    assert_eq!(range.pos_at(6), None);
    assert_eq!(range.pos_at(u128::MAX), None);
    for (i, pos) in cells.iter().enumerate() {
        assert!(range.contains_pos(*pos));
        assert_eq!(range.index_of(*pos), Some(i as u128));
    }
    assert_eq!(range.index_of(Pos::new(1, 2)), None);
    assert_eq!(range.index_of(Pos::new(2, 4)), None);
    assert_eq!(range.to_rect(), Some(Rect::new(2, 2, 4, 3)));
    assert_eq!(a1("A1").count(), Some(1));
    assert_eq!(a1("A1").pos_at(0), Some(Pos::new(1, 1)));
}

#[test]
fn test_enumeration_covers_each_cell_once() {
    for text in ["A1", "B2:D3", "C1:C9", "A5:H5", "$B$7:D9"] {
        let range = a1(text);
        let count = range.count().unwrap();
        let mut seen = Vec::new();
        for i in 0..count {
            let pos = range.pos_at(i).unwrap();
            assert!(range.contains_pos(pos));
            assert!(!seen.contains(&pos));
            seen.push(pos);
        }
        for x in 0..12 {
            for y in 0..12 {
                assert_eq!(range.contains(x, y), seen.contains(&Pos::new(x, y)));
            }
        }
    }
}

#[test]
fn test_enumeration_unbounded() {
    let cols = a1("B:D");
    assert!(!cols.is_finite());
    assert_eq!(cols.count(), None);
    assert_eq!(cols.pos_at(0), None);
    assert_eq!(cols.index_of(Pos::new(2, 1)), None);
    assert_eq!(cols.to_rect(), None);
    assert_eq!(cols.col_count(), Some(3));
    assert_eq!(cols.row_count(), None);
    assert_eq!(cols.col_at(0), Some(2));
    assert_eq!(cols.col_at(2), Some(4));
    assert_eq!(cols.col_at(3), None);
    assert_eq!(cols.row_at(0), Some(1));
    assert_eq!(cols.row_at(999), Some(1000));
    assert_eq!(cols.row_at(u64::MAX), None);
    assert_eq!(cols.row_at((UNBOUNDED - 2) as u64), Some(UNBOUNDED - 1));
    assert_eq!(cols.row_at((UNBOUNDED - 1) as u64), None);
    let rows = a1("3:5");
    assert_eq!(rows.row_count(), Some(3));
    assert_eq!(rows.col_count(), None);
    assert_eq!(rows.row_at(2), Some(5));
    assert_eq!(rows.row_at(3), None);
    assert_eq!(rows.col_at(25), Some(26));
    let open_start = RefRangeBounds {
        start: CellRefRangeEnd::unbounded(),
        end: CellRefRangeEnd::new_relative_xy(2, 2),
    };
    assert_eq!(open_start.count(), Some(4));
    assert_eq!(open_start.pos_at(3), Some(Pos::new(2, 2)));
    assert_eq!(open_start.to_rect(), Some(Rect::new(1, 1, 2, 2)));
    let reversed = RefRangeBounds {
        start: CellRefRangeEnd::new_relative_xy(5, 5),
        end: CellRefRangeEnd::new_relative_xy(1, 1),
    };
    assert_eq!(reversed.count(), Some(0));
    assert_eq!(reversed.pos_at(0), None);
    let huge = RefRangeBounds::new_relative(1, 1, UNBOUNDED - 1, UNBOUNDED - 1);
    let side = (UNBOUNDED - 1) as u128;
    assert_eq!(huge.count(), Some(side * side));
    assert_eq!(huge.pos_at(side * side - 1), Some(Pos::new(UNBOUNDED - 1, UNBOUNDED - 1)));
    assert_eq!(huge.pos_at(side), Some(Pos::new(1, 2)));
}

#[test]
fn test_within() {
    let extent = Rect::new(1, 1, 10, 20);
    assert!(extent.is_valid());
    assert_eq!(a1("B:D").within(extent), Some(a1("B1:D20")));
    assert_eq!(a1("*").within(extent), Some(a1("A1:J20")));
    assert_eq!(a1("5:6").within(extent), Some(a1("A5:J6")));
    assert_eq!(a1("H15:").within(extent), Some(a1("H15:J20")));
    assert_eq!(a1("K1:L2").within(extent), None);
    assert_eq!(a1("B:D").within(extent).unwrap().count(), Some(60));
    assert!(extent.contains(Pos::new(10, 20)));
    assert!(!extent.contains(Pos::new(11, 20)));
    assert!(!Rect::new(2, 1, 1, 1).is_valid());
    assert_eq!(RefRangeBounds::new_relative_rect(extent), a1("A1:J20"));
}

#[test]
fn test_cell_walk() {
    let range = a1("B2:C3");
    let mut walk = range.cells();
    assert_eq!(walk.next(), Some(Pos::new(2, 2)));
    assert_eq!(walk.next(), Some(Pos::new(3, 2)));
    assert_eq!(walk.next(), Some(Pos::new(2, 3)));
    assert_eq!(walk.next(), Some(Pos::new(3, 3)));
    assert_eq!(walk.next(), None);
    assert_eq!(walk.next(), None);
    assert_eq!(walk.index, 4);
    walk.restart();
    assert_eq!(walk.next(), Some(Pos::new(2, 2)));
    let mut endless = a1("B:C").cells();
    assert_eq!(endless.next(), None);
    assert_eq!(endless.index, 0);
    let mut clipped = a1("B:C").within(Rect::new(1, 1, 2, 2)).unwrap().cells();
    assert_eq!(clipped.next(), Some(Pos::new(2, 1)));
    assert_eq!(clipped.next(), Some(Pos::new(2, 2)));
    assert_eq!(clipped.next(), None);
}

#[test]
fn test_column_names() {
    assert_eq!(column_name(1), "A");
    assert_eq!(column_name(26), "Z");
    assert_eq!(column_name(27), "AA");
    assert_eq!(column_name(52), "AZ");
    assert_eq!(column_name(702), "ZZ");
    assert_eq!(column_name(703), "AAA");
    assert_eq!(column_name(0), "");
    assert_eq!(column_name(-5), "");
    assert_eq!(column_name(i64::MAX), "CRPXNLSKVLJFHG");
    assert_eq!(column_from_name("A"), Some(1));
    assert_eq!(column_from_name("z"), Some(26));
    assert_eq!(column_from_name("aA"), Some(27));
    assert_eq!(column_from_name("ZZ"), Some(702));
    assert_eq!(column_from_name("CRPXNLSKVLJFHF"), Some(i64::MAX - 1));
    assert_eq!(column_from_name("CRPXNLSKVLJFHG"), None);
    assert_eq!(column_from_name("ZZZZZZZZZZZZZZZZZZZZZZZZ"), None);
    assert_eq!(column_from_name(""), None);
    assert_eq!(column_from_name("A1"), None);
    assert_eq!(column_from_name("$A"), None);
    assert_eq!(column_from_name("Ä"), None);
    for column in [1, 2, 25, 26, 27, 28, 701, 702, 703, 18278, 18279, 1 << 40] {
        assert_eq!(column_from_name(&column_name(column)), Some(column));
    }
}
