use readdeck::catalog::{best_cover, cover_for, cover_url_from_id, search_url, BookstoreFilter, BookstoreQuery, SearchDoc};

fn doc(cover: Option<i64>, title: Option<&str>) -> SearchDoc {
    SearchDoc { cover_i: cover, title: title.map(|t| t.to_string()) }
}

#[test]
fn cover_url_format() {
    assert_eq!(cover_url_from_id(8231856), "https://covers.openlibrary.org/b/id/8231856-L.jpg");
    assert_eq!(cover_url_from_id(0), "https://covers.openlibrary.org/b/id/0-L.jpg");
    assert_eq!(cover_url_from_id(-3), "https://covers.openlibrary.org/b/id/-3-L.jpg");
}

#[test]
fn search_url_is_percent_encoded() {
    assert_eq!(
        search_url("The Hobbit", "J.R.R. Tolkien"),
        "https://openlibrary.org/search.json?title=The%20Hobbit&author=J.R.R.%20Tolkien&limit=3&fields=cover_i,title,author_name"
    );
    assert_eq!(
        search_url("Things Fall Apart!", "Chinua Achebe"),
        "https://openlibrary.org/search.json?title=Things%20Fall%20Apart%21&author=Chinua%20Achebe&limit=3&fields=cover_i,title,author_name"
    );
    assert_eq!(
        search_url("Ṣàngó", "a~b_c-d"),
        "https://openlibrary.org/search.json?title=%E1%B9%A2%C3%A0ng%C3%B3&author=a~b_c-d&limit=3&fields=cover_i,title,author_name"
    );
}

#[test]
fn title_match_is_preferred() {
    let docs = vec![
        doc(Some(1), Some("The Hobbit: Illustrated")),
        doc(None, Some("The Hobbit")),
        doc(Some(3), Some("THE HOBBIT")),
        doc(Some(4), Some("The Hobbit")),
        doc(Some(5), Some("The Hobbit")),
    ];
    assert_eq!(best_cover(&docs, "The Hobbit"), Some(4));
    assert_eq!(cover_for(&docs, "The Hobbit"), Some("https://covers.openlibrary.org/b/id/4-L.jpg".to_string()));
}

#[test]
fn only_an_exact_title_counts_as_a_match() {
    let docs = vec![
        doc(Some(1), Some("The Hobbit: Illustrated")),
        doc(Some(2), Some("the hobbit")),
        doc(Some(3), Some("The Hobbit ")),
    ];
    assert_eq!(best_cover(&docs, "The Hobbit"), Some(1));
    let docs = vec![doc(Some(1), Some("The Hobbit: Illustrated")), doc(Some(2), Some("The Hobbit"))];
    assert_eq!(best_cover(&docs, "The Hobbit"), Some(2));
}

#[test]
fn falls_back_to_first_cover() {
    let docs = vec![doc(None, Some("x")), doc(Some(9), None), doc(Some(10), Some("y"))];
    assert_eq!(best_cover(&docs, "The Hobbit"), Some(9));
    assert_eq!(best_cover(&vec![doc(None, Some("The Hobbit"))], "The Hobbit"), None);
    assert_eq!(cover_for(&Vec::new(), "The Hobbit"), None);
}

#[test]
fn bookstore_filter_choice() {
    let q = BookstoreQuery { city: Some("Lagos".to_string()), district: Some("Ikeja".to_string()) };
    assert!(matches!(q.filter(), BookstoreFilter::CityAndDistrict(c, d) if c == "Lagos" && d == "Ikeja"));
    let q = BookstoreQuery { city: Some("Lagos".to_string()), district: None };
    assert!(matches!(q.filter(), BookstoreFilter::City(c) if c == "Lagos"));
    let q = BookstoreQuery { city: None, district: Some("Ikeja".to_string()) };
    assert!(matches!(q.filter(), BookstoreFilter::All));
}
