use bookmark::domain::bookmark::models::{Bookmark, Category, CategoryWithBookmarkCount, Tag};
use bookmark::domain::user::error::{AuthError, UserError};
use bookmark::domain::user::models::{UserInfo, UserToken};
use bookmark::error::Error;
use bookmark::routes::bookmark::{
    add_bookmark_page, add_form_page, edit_bookmark_outcome, edit_form_page, parse_new_tags,
    validate_bookmark_form, AddBookmarkForm, AddOutcome, BookmarkFormErrors, BookmarkImportForm,
    EditBookmarkForm, ValidateForm,
};
use bookmark::domain::bookmark::models::{BookmarkAdd, BookmarkBatchAdd, BookmarkUpdate};
use bookmark::routes::extractor::format_validation_errors;
use bookmark::routes::extractor::i18n::{locale_or_default, Locale};
use bookmark::routes::extractor::validated_json::{parsed_body, unreadable_body, validated_body};
use bookmark::routes::home::{
    bookmark_list, contains_i32, home_query_args, parse_tag_ids, toggled, BookmarkItemTemplate,
    BookmarkListTemplate, HomeQuery, HomeTemplate,
};
use bookmark::routes::i18n::{set_lang, I18nForm};
use bookmark::routes::image::{image_file_name, image_public_url, missing_image_error, upload_field_step, UploadStep};
use bookmark::routes::middleware::auth::{
    admin_allows, auth_gate_found, auth_gate_start, auth_gate_verified, extract_bearer_token, AuthGate,
};
use bookmark::routes::user::{
    changepwd_outcome, changepwd_problem, is_blank, login_form_errors, login_form_ok_exec,
    login_outcome, login_page, token_outcome, ApiUser, LoginErrors, SessionUser,
};
use bookmark::routes::PageResult;
use bookmark::utils::i18n::Lang;

fn s(x: &str) -> String {
    x.to_string()
}

fn add_form(title: &str, category_id: Option<i32>, new_tags: &str) -> AddBookmarkForm {
    AddBookmarkForm {
        title: s(title),
        url: s("https://example.com"),
        cover_image: s("c.png"),
        desc: s("d"),
        category_id,
        tag_ids: vec![1, 2],
        new_tags: s(new_tags),
    }
}

#[test]
fn new_tags_are_trimmed_and_nonempty() {
    assert_eq!(parse_new_tags(&s(" web , ,db,,  ")), vec![s("web"), s("db")]);
    assert!(parse_new_tags(&s("")).is_empty());
}

#[test]
fn add_form_becomes_a_request() {
    let b = BookmarkAdd::from_add_form(add_form("T", None, "x, y"));
    assert_eq!(b.category_id, 0);
    assert_eq!(b.tags, vec![1, 2]);
    assert_eq!(b.new_tags, vec![s("x"), s("y")]);
    assert_eq!(b.desc, "d");
    let b = BookmarkAdd::from_add_form(add_form("T", Some(4), ""));
    assert_eq!(b.category_id, 4);
    assert!(b.new_tags.is_empty());
}

#[test]
fn edit_and_import_forms_become_requests() {
    let f = EditBookmarkForm {
        id: 9,
        title: s("T"),
        url: s("u"),
        cover_image: s("c"),
        desc: s(""),
        category_id: Some(2),
        tag_ids: vec![],
        new_tags: s("a"),
    };
    let u = BookmarkUpdate::from_edit_form(f);
    assert_eq!((u.id, u.category_id), (9, 2));
    assert_eq!(u.new_tags, vec![s("a")]);
    let i = BookmarkBatchAdd::from_import_form(BookmarkImportForm {
        title: s("T"),
        url: s("u"),
        cover_image: s("c"),
        category: s("dev"),
    });
    assert_eq!(i.desc, "");
    assert_eq!(i.category, "dev");
}

#[test]
fn bookmark_form_checks() {
    let form = ValidateForm { title: s("  "), url: s("u"), cover_image: s(""), category_id: None };
    let (errors, failed) = validate_bookmark_form(&form);
    assert!(failed);
    assert_eq!(errors.title.as_deref(), Some("标题不能为空"));
    assert_eq!(errors.url, None);
    assert_eq!(errors.cover_image.as_deref(), Some("封面图片不能为空"));
    assert_eq!(errors.category_id.as_deref(), Some("请选择分类"));
    assert_eq!(errors.general, None);
    let ok = ValidateForm { title: s("t"), url: s("u"), cover_image: s("c"), category_id: Some(1) };
    let (errors, failed) = validate_bookmark_form(&ok);
    assert!(!failed);
    assert_eq!(errors.url, None);
    let from_add: ValidateForm = add_form("", Some(1), "").into();
    assert!(validate_bookmark_form(&from_add).1);
}

fn cats() -> Vec<Category> {
    vec![Category { id: 5, name: s("dev") }, Category { id: 6, name: s("news") }]
}

#[test]
fn add_page_starts_on_the_first_category() {
    let page = add_form_page(cats(), vec![]);
    assert_eq!(page.category_id, Some(5));
    assert!(page.is_category_selected(&5));
    assert!(!page.is_category_selected(&6));
    assert!(page.success_msg.is_none());
    assert_eq!(add_form_page(vec![], vec![]).category_id, None);
}

#[test]
fn add_page_after_submission() {
    let saved = add_bookmark_page(
        cats(),
        vec![],
        add_form("T", Some(6), ""),
        BookmarkFormErrors::default(),
        AddOutcome::Saved(vec![Tag { id: 1, name: s("new") }]),
    );
    assert_eq!(saved.success_msg.as_deref(), Some("添加成功"));
    assert_eq!(saved.title, "");
    assert_eq!(saved.tags.len(), 1);
    let failed = add_bookmark_page(cats(), vec![], add_form("T", Some(6), ""), BookmarkFormErrors::default(), AddOutcome::SaveFailed);
    assert_eq!(failed.errors.general.as_deref(), Some("添加失败，请稍后重试"));
    assert_eq!(failed.title, "T");
    assert!(failed.is_tag_selected(&2));
    assert!(!failed.is_tag_selected(&3));
    let (errors, _) = validate_bookmark_form(&ValidateForm { title: s(""), url: s("u"), cover_image: s("c"), category_id: Some(1) });
    let invalid = add_bookmark_page(cats(), vec![], add_form("", Some(6), ""), errors, AddOutcome::Invalid);
    assert_eq!(invalid.errors.title.as_deref(), Some("标题不能为空"));
    assert_eq!(invalid.errors.general, None);
}

fn stored(created_at: i64) -> Bookmark {
    Bookmark {
        id: 3,
        title: s("Rust"),
        url: s("https://rust-lang.org"),
        cover_image: s("r.png"),
        tags: vec![Tag { id: 1, name: s("lang") }, Tag { id: 2, name: s("sys") }],
        category_id: 6,
        created_at,
    }
}

#[test]
fn edit_page_and_outcome() {
    let page = edit_form_page(stored(0), cats(), vec![], vec![1, 2]);
    assert_eq!(page.id, 3);
    assert_eq!(page.category_id, Some(6));
    assert!(page.is_category_selected(&6));
    assert!(page.is_tag_selected(&2));
    assert_eq!(page.desc, "");
    let form = EditBookmarkForm {
        id: 3,
        title: s("New"),
        url: s("u"),
        cover_image: s("c"),
        desc: s(""),
        category_id: Some(6),
        tag_ids: vec![],
        new_tags: s(""),
    };
    assert!(matches!(edit_bookmark_outcome(cats(), vec![], form.clone(), BookmarkFormErrors::default(), Some(true)), PageResult::Redirect(p) if p == "/"));
    match edit_bookmark_outcome(cats(), vec![], form.clone(), BookmarkFormErrors::default(), Some(false)) {
        PageResult::RenderTemplate(t) => {
            assert_eq!(t.errors.general.as_deref(), Some("修改失败，请稍后重试"));
            assert_eq!(t.title, "New");
        },
        _ => panic!("expected the form"),
    }
    match edit_bookmark_outcome(cats(), vec![], form, BookmarkFormErrors::default(), None) {
        PageResult::RenderTemplate(t) => assert_eq!(t.errors.general, None),
        _ => panic!("expected the form"),
    }
}

#[test]
fn tag_ids_of_the_query() {
    assert_eq!(parse_tag_ids(&Some(s("1, 2,x,,3,+8"))), Some(vec![1, 2, 3, 8]));
    assert_eq!(parse_tag_ids(&Some(s(""))), Some(vec![]));
    assert_eq!(parse_tag_ids(&None), None);
    assert_eq!(parse_tag_ids(&Some(s("-7,2147483648"))), Some(vec![-7]));
}

fn list(tags: Vec<i32>) -> BookmarkListTemplate {
    BookmarkListTemplate {
        bookmarks: vec![],
        next_page: 2,
        has_more: false,
        selected_category: None,
        selected_tag_ids: tags,
        search_keyword: s(""),
        is_admin: false,
    }
}

#[test]
fn selected_tags_round_trip() {
    for tags in [vec![], vec![1], vec![3, -4, 12]] {
        let l = list(tags.clone());
        let param = l.selected_tags_param();
        assert_eq!(parse_tag_ids(&Some(param)), Some(tags));
    }
    assert_eq!(list(vec![3, -4, 12]).selected_tags_param(), "3,-4,12");
}

fn home(selected: Option<i32>, tags: Vec<i32>, keyword: &str) -> HomeTemplate {
    HomeTemplate {
        bookmarks: list(tags.clone()),
        categories: vec![
            CategoryWithBookmarkCount { id: 1, name: s("a"), bookmark_count: 3 },
            CategoryWithBookmarkCount { id: 2, name: s("b"), bookmark_count: 4 },
        ],
        tags: vec![],
        selected_category: selected,
        selected_tag_ids: tags,
        search_keyword: s(keyword),
        user: SessionUser { username: s("u"), role: s("user"), is_admin: false },
    }
}

#[test]
fn category_links() {
    assert_eq!(home(None, vec![], "").category_url(&3), "/?c=3");
    assert_eq!(home(Some(3), vec![], "").category_url(&3), "/");
    assert_eq!(home(Some(1), vec![4, 5], "rust lang").category_url(&3), "/?c=3&t=4,5&q=rust%20lang");
    assert_eq!(home(Some(3), vec![], "中").category_url(&3), "/?q=%E4%B8%AD");
}

#[test]
fn tag_links_toggle_the_tag() {
    assert_eq!(home(None, vec![], "").tag_url(&7), "/?t=7");
    assert_eq!(home(Some(2), vec![7], "").tag_url(&7), "/?c=2");
    assert_eq!(home(None, vec![1, 7, 2], "a&b").tag_url(&7), "/?t=1,2&q=a%26b");
    assert_eq!(home(None, vec![1], "").tag_url(&2), "/?t=1,2");
}

#[test]
fn toggling_twice_restores_membership() {
    let once = toggled(&vec![1, 2], 3);
    assert_eq!(once, vec![1, 2, 3]);
    let twice = toggled(&once, 3);
    assert_eq!(twice, vec![1, 2]);
    assert!(contains_i32(&once, 3));
    assert!(!contains_i32(&twice, 3));
}

#[test]
fn home_selection_state() {
    let h = home(Some(1), vec![4], "");
    assert!(h.is_category_selected(&1));
    assert!(!h.is_category_selected(&2));
    assert!(h.is_tag_selected(&4));
    assert!(!h.is_all_selected());
    assert!(home(None, vec![], "").is_all_selected());
    assert_eq!(h.total_bookmarks(), 7);
}

#[test]
fn home_query_defaults() {
    let (args, tags, keyword) = home_query_args(HomeQuery { c: Some(2), t: Some(s("1,2")), q: None, page: None, page_size: None });
    assert_eq!(args.category_id, Some(2));
    assert_eq!(args.tags, Some(vec![1, 2]));
    assert_eq!(args.keyword.as_deref(), Some(""));
    assert_eq!((args.page, args.page_size), (1, 100));
    assert_eq!(tags, vec![1, 2]);
    assert_eq!(keyword, "");
    let (args, tags, _) = home_query_args(HomeQuery { c: None, t: None, q: Some(s("x")), page: Some(3), page_size: Some(5) });
    assert_eq!((args.page, args.page_size), (3, 5));
    assert_eq!(args.tags, Some(vec![]));
    assert!(tags.is_empty());
}

#[test]
fn list_items_show_hong_kong_time() {
    let item = BookmarkItemTemplate::from_bookmark(stored(0));
    assert_eq!(item.created_at, "1970-01-01 08:00:00");
    assert_eq!(item.tags, vec![s("lang"), s("sys")]);
    let l = bookmark_list(vec![stored(1_700_000_000), stored(0)], 1, 2, Some(6), vec![1], s("k"), true);
    assert_eq!(l.bookmarks.len(), 2);
    assert_eq!(l.bookmarks[0].created_at, "2023-11-15 06:13:20");
    assert_eq!(l.next_page, 2);
    assert!(l.has_more);
    assert!(l.is_admin);
    let l = bookmark_list(vec![stored(0)], 4, 20, None, vec![], s(""), false);
    assert!(!l.has_more);
    assert_eq!(l.next_page, 5);
}

#[test]
fn language_switch() {
    let r = set_lang(Some("/home?x=1"), I18nForm { lang: s("en-US"), redirect: None });
    assert_eq!(r.location, "/home?x=1");
    assert_eq!(r.cookie.as_deref(), Some("lang=en-US; Path=/; Max-Age=31536000; SameSite=Lax"));
    let r = set_lang(None, I18nForm { lang: s("zh-cn"), redirect: Some(s("/add")) });
    assert_eq!(r.location, "/add");
    assert_eq!(r.cookie.as_deref(), Some("lang=zh-CN; Path=/; Max-Age=31536000; SameSite=Lax"));
    let r = set_lang(None, I18nForm { lang: s("fr"), redirect: Some(s("/add")) });
    assert_eq!(r.location, "/");
    assert_eq!(r.cookie, None);
}

#[test]
fn locale_falls_back_to_chinese() {
    assert_eq!(locale_or_default(None).lang, Lang::ZhCn);
    assert_eq!(locale_or_default(Some(Locale { lang: Lang::EnUs })).lang, Lang::EnUs);
}

#[test]
fn upload_parts() {
    assert!(matches!(upload_field_step(Some("other"), Some("image/png")), UploadStep::Skip));
    assert!(matches!(upload_field_step(None, None), UploadStep::Skip));
    assert!(matches!(upload_field_step(Some("image"), Some("image/png")), UploadStep::Accept));
    match upload_field_step(Some("image"), Some("text/plain")) {
        UploadStep::Reject(Error::BadRequest(m)) => {
            assert_eq!(m, "Content-Type header is missing or uploaded file is not an image")
        },
        _ => panic!("expected a refusal"),
    }
    assert!(matches!(upload_field_step(Some("image"), None), UploadStep::Reject(_)));
    assert!(matches!(missing_image_error(), Error::BadRequest(m) if m == "Missing 'image' field"));
    assert_eq!(image_file_name("abc"), "abc.webp");
    assert_eq!(image_public_url("abc.webp"), "images/abc.webp");
}

#[test]
fn bearer_tokens() {
    assert_eq!(extract_bearer_token(Some("Bearer abc.def")), Some(s("abc.def")));
    assert_eq!(extract_bearer_token(Some("Bearer ")), Some(s("")));
    assert_eq!(extract_bearer_token(Some("bearer abc")), None);
    assert_eq!(extract_bearer_token(Some("Basic xyz")), None);
    assert_eq!(extract_bearer_token(None), None);
}

#[test]
fn authentication_gate() {
    assert!(matches!(auth_gate_start(true, None), AuthGate::Pass));
    assert!(matches!(auth_gate_start(false, Some("Bearer t")), AuthGate::VerifyToken(t) if t == "t"));
    assert!(matches!(auth_gate_start(false, None), AuthGate::Redirect(p) if p == "/login"));
    let token = UserToken { username: s("alice"), token: s("t"), expire_time: 1 };
    assert!(matches!(auth_gate_verified(Ok(token)), AuthGate::LookupUser(u) if u == "alice"));
    assert!(matches!(auth_gate_verified(Err(AuthError::InvalidCredentials(s("x")))), AuthGate::Redirect(p) if p == "/login"));
    assert!(matches!(auth_gate_found(true), AuthGate::Pass));
    assert!(matches!(auth_gate_found(false), AuthGate::Redirect(p) if p == "/login"));
    let admin = SessionUser { username: s("a"), role: s("admin"), is_admin: true };
    let plain = SessionUser { username: s("b"), role: s("user"), is_admin: false };
    assert!(admin_allows(Some(&admin)));
    assert!(!admin_allows(Some(&plain)));
    assert!(!admin_allows(None));
}

#[test]
fn session_users() {
    let u: SessionUser = UserInfo { username: s("root"), role: s("admin") }.into();
    assert!(u.is_admin);
    let u: SessionUser = UserInfo { username: s("joe"), role: s("Admin") }.into();
    assert!(!u.is_admin);
    let api: ApiUser = UserToken { username: s("a"), token: s("t"), expire_time: 0 }.into();
    assert_eq!((api.username.as_str(), api.token.as_str()), ("a", "t"));
}

#[test]
fn login_flow() {
    assert!(is_blank(" \t"));
    assert!(!is_blank(" x "));
    let errors = login_form_errors(" ", "");
    assert_eq!(errors.username.as_deref(), Some("username_required"));
    assert_eq!(errors.password.as_deref(), Some("password_required"));
    assert!(!login_form_ok_exec(&errors));
    let fine = login_form_errors("alice", "pw");
    assert!(login_form_ok_exec(&fine));
    let (page, user) = login_outcome(s("alice"), fine.clone(), Some(Ok(UserInfo { username: s("alice"), role: s("admin") })));
    assert!(matches!(page, PageResult::Redirect(p) if p == "/"));
    assert!(user.unwrap().is_admin);
    let (page, user) = login_outcome(s("alice"), fine.clone(), Some(Err(AuthError::InvalidCredentials(s("x")))));
    assert!(user.is_none());
    match page {
        PageResult::RenderTemplate(t) => {
            assert_eq!(t.errors.general.as_deref(), Some("invalid_credentials"));
            assert_eq!(t.username, "alice");
        },
        _ => panic!("expected the form"),
    }
    let (page, user) = login_outcome(s(""), errors, None);
    assert!(user.is_none());
    assert!(matches!(page, PageResult::RenderTemplate(t) if t.errors.username.as_deref() == Some("username_required")));
    let first = login_page(s("welcome"));
    assert_eq!(first.flash_message, "welcome");
    assert_eq!(first.errors.general, None);
}

#[test]
fn password_change_flow() {
    assert_eq!(changepwd_problem("", "a", "a").as_deref(), Some("current_password_required"));
    assert_eq!(changepwd_problem("c", "", "a").as_deref(), Some("new_password_required"));
    assert_eq!(changepwd_problem("c", "a", "").as_deref(), Some("confirm_password_required"));
    assert_eq!(changepwd_problem("c", "a", "b").as_deref(), Some("password_mismatch"));
    assert_eq!(changepwd_problem("c", "a", "a"), None);
    assert!(matches!(changepwd_outcome(Some(s("password_mismatch")), None), PageResult::RenderTemplate(t) if t.msg == "password_mismatch"));
    assert!(matches!(changepwd_outcome(None, Some(Ok(()))), PageResult::Redirect(p) if p == "/login"));
    assert!(matches!(changepwd_outcome(None, Some(Err(UserError::InvalidPassword))), PageResult::RenderTemplate(t) if t.msg == "current_password_wrong"));
}

#[test]
fn token_page() {
    let errors = LoginErrors { username: None, password: None, general: None };
    let t = token_outcome(s("root"), errors.clone(), Some(Ok(UserToken { username: s("root"), token: s("jwt"), expire_time: 5 })));
    assert_eq!(t.flash_message, "jwt");
    let t = token_outcome(s("joe"), errors.clone(), Some(Err(AuthError::InvalidPermission(s("x")))));
    assert_eq!(t.flash_message, "");
    assert_eq!(t.errors.general.as_deref(), Some("invalid_permission"));
    let t = token_outcome(s("joe"), errors, None);
    assert_eq!(t.errors.general, None);
}

#[test]
fn json_bodies() {
    assert!(matches!(unreadable_body(), Error::Validation(m) if m == "参数验证失败"));
    let ok: Result<i32, Error> = parsed_body(Ok(5));
    assert_eq!(ok.unwrap(), 5);
    let bad: Result<i32, Error> = parsed_body(Err((s("."), s("missing field `title` at line 1 column 2"))));
    assert!(matches!(bad, Err(Error::Validation(m)) if m == "need title field"));
    let valid = validated_body(7, None).ok().unwrap();
    assert_eq!(valid.0, 7);
    let problems = vec![(s("url"), vec![Some(s("bad url")), None])];
    match validated_body(7, Some(problems)) {
        Err(Error::ValidationFields(f)) => {
            assert_eq!(f, vec![(s("url"), vec![s("bad url"), s("url is invalid")])]);
        },
        _ => panic!("expected field problems"),
    }
    let direct = format_validation_errors(&vec![(s("title"), vec![None])]);
    assert_eq!(direct, vec![(s("title"), vec![s("title is invalid")])]);
}
