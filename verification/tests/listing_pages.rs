use cnpj_sqlite::listing::{
    files_of_listing, is_at_most, latest_snapshot, latest_snapshot_of, names_snapshot_folder,
    remote_file_of_row, remote_files_of_rows, resolve_url, snapshot_url, sort_by_size,
    total_advertised_bytes, DiscoveryError, RemoteFile, TableRow,
};

fn chars(s: &str) -> Vec<char> {
    s.chars().collect()
}

fn file(url: &str, size: u64) -> RemoteFile {
    RemoteFile { url: url.to_string(), advertised_size_bytes: size }
}

fn pairs(files: &[RemoteFile]) -> Vec<(String, u64)> {
    files.iter().map(|f| (f.url.clone(), f.advertised_size_bytes)).collect()
}

const INDEX: &str = r#"<html><head><title>Index of /dados</title></head><body>
<h1>Index of /dados</h1>
<table>
<tr><th><a href="?C=N;O=D">Name</a></th><th>Last modified</th></tr>
<tr><td><a href="/">Parent Directory</a></td><td>-</td></tr>
<tr><td><a href="2023-05/">2023-05/</a></td><td>2023-05-20</td></tr>
<tr><td><a href="2024-11/">2024-11/</a></td><td>2024-11-20</td></tr>
<tr><td><a href="2024-01/">2024-01/</a></td><td>2024-01-20</td></tr>
<tr><td><a href="2025-01">2025-01</a></td><td>no stroke</td></tr>
<tr><td><a href="temp/">temp/</a></td><td>-</td></tr>
<tr><td><a name="top">no target</a></td><td>-</td></tr>
</table></body></html>"#;

const FOLDER: &str = r#"<html><body><table>
<tr><th valign="top"><img src="/icons/blank.gif"></th><th><a href="?C=N;O=D">Name</a></th><th>Last modified</th><th>Size</th><th>Description</th></tr>
<tr><td><img src="/icons/back.gif"></td><td><a href="/dados/">Parent Directory</a></td><td>&nbsp;</td><td align="right">  - </td><td>&nbsp;</td></tr>
<tr><td><img src="/icons/compressed.gif"></td><td><a href="Empresas0.zip">Empresas0.zip</a></td><td align="right">2024-11-16 13:06  </td><td align="right">500M</td><td>&nbsp;</td></tr>
<tr><td><img src="/icons/compressed.gif"></td><td><a href="Cnaes.zip">Cnaes.zip</a></td><td align="right">2024-11-16 13:01  </td><td align="right"> 22K </td><td>&nbsp;</td></tr>
<tr><td><img src="/icons/compressed.gif"></td><td><a href="https://mirror.example/Simples.zip">Simples.zip</a></td><td align="right">2024-11-16 13:30  </td><td align="right">1.8G</td><td>&nbsp;</td></tr>
<tr><td><img src="/icons/text.gif"></td><td><a href="LEIAME.pdf">LEIAME.pdf</a></td><td align="right">2024-11-16</td><td align="right">1.0M</td><td>&nbsp;</td></tr>
<tr><td><a href="Motivos.zip">Motivos.zip</a></td><td>three cells only</td><td>1K</td></tr>
</table></body></html>"#;

#[test]
fn a_snapshot_folder_starts_with_20_and_ends_with_a_stroke() {
    assert!(names_snapshot_folder(&chars("2024-01/")));
    assert!(names_snapshot_folder(&chars("20/")));
    assert!(!names_snapshot_folder(&chars("2024-01")));
    assert!(!names_snapshot_folder(&chars("1999-01/")));
    assert!(!names_snapshot_folder(&chars("/2024-01/")));
    assert!(!names_snapshot_folder(&chars("")));
}

#[test]
fn strings_are_ordered_as_the_standard_library_orders_them() {
    let samples = ["", "2", "20", "2023-05/", "2024-01/", "2024-11/", "2024-1/", "a", "\u{e9}", "\u{1f600}", "Z"];
    for a in samples {
        for b in samples {
            assert_eq!(is_at_most(&chars(a), &chars(b)), a <= b, "{:?} {:?}", a, b);
        }
    }
}

#[test]
fn the_latest_snapshot_is_the_last_in_the_order_of_strings() {
    let hrefs = vec![
        Some("2023-05/".to_string()),
        None,
        Some("2024-11/".to_string()),
        Some("2024-01/".to_string()),
        Some("2025-01".to_string()),
        Some("temp/".to_string()),
    ];
    assert_eq!(latest_snapshot_of(&hrefs), Some("2024-11/".to_string()));
    assert_eq!(latest_snapshot_of(&vec![None, Some("x/".to_string())]), None);
    assert_eq!(latest_snapshot_of(&Vec::new()), None);
}

#[test]
fn the_latest_snapshot_is_read_from_the_index_page() {
    assert_eq!(latest_snapshot(INDEX), Ok("2024-11/".to_string()));
}

#[test]
fn an_index_without_snapshot_folders_is_an_error() {
    let page = r#"<html><body><a href="temp/">temp</a><a href="2024-01">x</a></body></html>"#;
    assert_eq!(latest_snapshot(page), Err(DiscoveryError::NoSnapshotFolder));
    assert_eq!(latest_snapshot(""), Err(DiscoveryError::NoSnapshotFolder));
}

#[test]
fn the_folder_url_is_the_folder_behind_the_archive() {
    assert_eq!(snapshot_url("https://host/dados/", "2024-11/"), "https://host/dados/2024-11/");
}

#[test]
fn a_relative_href_is_put_behind_the_folder_and_an_absolute_one_kept() {
    let folder = chars("https://host/dados/2024-11/");
    assert_eq!(resolve_url(&folder, &chars("Cnaes.zip")), chars("https://host/dados/2024-11/Cnaes.zip"));
    assert_eq!(resolve_url(&folder, &chars("http://other/a.zip")), chars("http://other/a.zip"));
    assert_eq!(resolve_url(&folder, &chars("https://other/a.zip")), chars("https://other/a.zip"));
    assert_eq!(resolve_url(&folder, &chars("htt.zip")), chars("https://host/dados/2024-11/htt.zip"));
}

#[test]
fn a_row_offers_a_file_if_its_first_link_ends_in_zip() {
    let folder = chars("https://host/f/");
    let row = TableRow {
        links: vec![Some("a.zip".to_string()), Some("b.zip".to_string())],
        cells: vec!["".to_string(), "a.zip".to_string(), "2024".to_string(), " 47M ".to_string()],
    };
    let found = remote_file_of_row(&folder, &row).unwrap();
    assert_eq!((found.url.as_str(), found.advertised_size_bytes), ("https://host/f/a.zip", 49283072));

    let few_cells = TableRow { links: vec![Some("a.zip".to_string())], cells: vec!["1K".to_string(); 3] };
    assert_eq!(remote_file_of_row(&folder, &few_cells).unwrap().advertised_size_bytes, 0);

    let other_first = TableRow { links: vec![Some("a.txt".to_string()), Some("b.zip".to_string())], cells: vec![] };
    assert!(remote_file_of_row(&folder, &other_first).is_none());
    let no_href = TableRow { links: vec![None, Some("b.zip".to_string())], cells: vec![] };
    assert!(remote_file_of_row(&folder, &no_href).is_none());
    let no_link = TableRow { links: vec![], cells: vec!["x".to_string(); 5] };
    assert!(remote_file_of_row(&folder, &no_link).is_none());
}

#[test]
fn rows_give_their_files_in_order() {
    let rows = vec![
        TableRow { links: vec![Some("b.zip".to_string())], cells: vec!["".into(), "".into(), "".into(), "2K".into()] },
        TableRow { links: vec![Some("readme.txt".to_string())], cells: vec![] },
        TableRow { links: vec![Some("a.zip".to_string())], cells: vec!["".into(), "".into(), "".into(), "1K".into()] },
    ];
    let files = remote_files_of_rows("u/", &rows);
    assert_eq!(pairs(&files), vec![("u/b.zip".to_string(), 2048), ("u/a.zip".to_string(), 1024)]);
}

#[test]
fn files_are_sorted_smallest_first_and_equal_sizes_keep_their_order() {
    let sorted = sort_by_size(vec![file("c", 30), file("a1", 10), file("z", 0), file("a2", 10), file("b", 20), file("a3", 10)]);
    assert_eq!(
        pairs(&sorted),
        vec![("z".to_string(), 0), ("a1".to_string(), 10), ("a2".to_string(), 10), ("a3".to_string(), 10), ("b".to_string(), 20), ("c".to_string(), 30)]
    );
    assert!(sort_by_size(Vec::new()).is_empty());
}

#[test]
fn the_total_is_the_sum_of_the_advertised_sizes() {
    assert_eq!(total_advertised_bytes(&vec![file("a", 10), file("b", 5), file("c", 500)]), 515);
    assert_eq!(total_advertised_bytes(&Vec::new()), 0);
    assert_eq!(total_advertised_bytes(&vec![file("a", u64::MAX), file("b", u64::MAX)]), 2 * (u64::MAX as u128));
}

#[test]
fn the_files_of_a_folder_are_read_from_its_listing() {
    let files = files_of_listing("https://host/dados/2024-11/", FOLDER).unwrap();
    assert_eq!(
        pairs(&files),
        vec![
            ("https://host/dados/2024-11/Motivos.zip".to_string(), 0),
            ("https://host/dados/2024-11/Cnaes.zip".to_string(), 22 * 1024),
            ("https://host/dados/2024-11/Empresas0.zip".to_string(), 500 * 1024 * 1024),
            ("https://mirror.example/Simples.zip".to_string(), 1932735283),
        ]
    );
}

#[test]
fn a_listing_without_files_is_an_error() {
    let page = r#"<table><tr><td><a href="LEIAME.pdf">x</a></td><td></td><td></td><td>1K</td></tr></table>"#;
    assert_eq!(files_of_listing("u/", page).err(), Some(DiscoveryError::NoFiles));
    assert_eq!(files_of_listing("u/", "").err(), Some(DiscoveryError::NoFiles));
    let outside_rows = r#"<p><a href="a.zip">a.zip</a></p>"#;
    assert_eq!(files_of_listing("u/", outside_rows).err(), Some(DiscoveryError::NoFiles));
}
