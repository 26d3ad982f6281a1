use listing_ledger::import::{
    column_roles, date_in, day_of, read_digits, read_figure, read_row, sample_for, Columns,
    ImportRow, Titles,
};
use listing_ledger::ledger::{Sample, SAMPLE_LIMIT};
use listing_ledger::types::{AeError, Failure};

fn titles() -> Titles {
    Titles {
        product_id: "|商品ID|".to_string(),
        visitors: "|访客数|uv|".to_string(),
        sales: "|支付商品件数|".to_string(),
    }
}

fn cells(texts: &[Option<&str>]) -> Vec<Option<String>> {
    texts.iter().map(|t| t.map(|s| s.to_string())).collect()
}

#[test]
fn day_is_read_from_the_file_name() {
    assert_eq!(date_in("sales-2024-05-01.xlsx"), Ok(20240501));
    assert_eq!(date_in("2023-12-31"), Ok(20231231));
    assert_eq!(date_in("a 1999-01-02 b 2024-05-01"), Ok(19990102));
    assert_eq!(date_in("x12024-05-017"), Ok(20240501));
}

#[test]
fn a_name_without_a_date_is_refused() {
    assert_eq!(date_in("sales.xlsx"), Err(AeError(Failure::NoDate)));
    assert_eq!(date_in("2024-5-01"), Err(AeError(Failure::NoDate)));
    assert_eq!(date_in("2024_05_01"), Err(AeError(Failure::NoDate)));
    assert_eq!(date_in(""), Err(AeError(Failure::NoDate)));
    assert_eq!(date_in("٢٠٢٤-٠٥-٠١"), Err(AeError(Failure::NoDate)));
}

#[test]
fn day_text_has_one_form() {
    assert_eq!(day_of("2024-05-01"), Some(20240501));
    assert_eq!(day_of("0000-00-00"), Some(0));
    assert_eq!(day_of("9999-99-99"), Some(99999999));
    assert_eq!(day_of("2024-05-1"), None);
    assert_eq!(day_of("2024/05/01"), None);
    assert_eq!(day_of("2024-05-011"), None);
    assert_eq!(day_of("2o24-05-01"), None);
    assert_eq!(read_digits("ab123", 2, 5), Some(123));
    assert_eq!(read_digits("ab123", 1, 5), None);
    assert_eq!(read_digits("ab123", 2, 2), Some(0));
}

#[test]
fn columns_are_told_by_their_titles() {
    let header = cells(&[Some("日期"), Some("访客数"), None, Some("商品ID"), Some("支付商品件数")]);
    assert_eq!(column_roles(&header, &titles()), Columns { product_id: 3, visitors: 1, sales: 4 });
    let latin = cells(&[Some("商品ID"), Some("访客数"), Some("uv")]);
    assert_eq!(column_roles(&latin, &titles()), Columns { product_id: 0, visitors: 2, sales: 0 });
    assert_eq!(
        column_roles(&cells(&[Some("访客"), Some("ID")]), &titles()),
        Columns { product_id: 0, visitors: 0, sales: 0 }
    );
    assert_eq!(column_roles(&cells(&[]), &titles()), Columns { product_id: 0, visitors: 0, sales: 0 });
}

#[test]
fn cells_are_read_as_integers_or_zero() {
    let row = cells(&[Some("12"), Some("x"), None, Some("-4"), Some("1.5"), Some(" 7")]);
    assert_eq!(read_figure(&row, 0), 12);
    assert_eq!(read_figure(&row, 1), 0);
    assert_eq!(read_figure(&row, 2), 0);
    assert_eq!(read_figure(&row, 3), -4);
    assert_eq!(read_figure(&row, 4), 0);
    assert_eq!(read_figure(&row, 5), 0);
    assert_eq!(read_figure(&row, 6), 0);
    let signed = cells(&[
        Some("+5"),
        Some("-0"),
        Some("007"),
        Some("9223372036854775807"),
        Some("9223372036854775808"),
        Some("-9223372036854775808"),
        Some("-"),
        Some("+"),
        Some(""),
        Some("--1"),
        Some("٣"),
        Some("1_000"),
    ]);
    let read: Vec<i64> = (0..12).map(|at| read_figure(&signed, at)).collect();
    assert_eq!(read, vec![5, 0, 7, i64::MAX, 0, i64::MIN, 0, 0, 0, 0, 0, 0]);
    assert_eq!(
        read_row(&row, &Columns { product_id: 0, visitors: 3, sales: 1 }),
        ImportRow { product_id: 12, visitors: -4, sales: 0 }
    );
}

#[test]
fn last_row_of_a_product_wins() {
    let rows = vec![
        ImportRow { product_id: 1, visitors: 10, sales: 1 },
        ImportRow { product_id: 2, visitors: 20, sales: 2 },
        ImportRow { product_id: 1, visitors: 30, sales: 3 },
    ];
    assert_eq!(sample_for(&rows, 1, 20240501), Some(Sample { date: 20240501, count: 3, visitors: 30 }));
    assert_eq!(sample_for(&rows, 2, 20240501), Some(Sample { date: 20240501, count: 2, visitors: 20 }));
    assert_eq!(sample_for(&rows, 3, 20240501), Some(Sample { date: 20240501, count: 0, visitors: 0 }));
    let big = vec![ImportRow { product_id: 1, visitors: 0, sales: SAMPLE_LIMIT + 1 }];
    assert_eq!(sample_for(&big, 1, 20240501), None);
}

#[test]
fn titles_default_to_the_usual_ones() {
    let usual = Titles::from_settings(None, Some("|uv|".to_string()), None);
    assert_eq!(usual.product_id, "|商品ID|");
    assert_eq!(usual.visitors, "|uv|");
    assert_eq!(usual.sales, "|支付商品件数|");
}
