use upcount::client::{CreateClientRequest, UpdateClientRequest};
use upcount::database::Database;
use upcount::invoice::{CreateInvoiceLineItemRequest, CreateInvoiceRequest, UpdateInvoiceRequest};
use upcount::model::{DbError, Real};
use upcount::organization::{CreateOrganizationRequest, UpdateOrganizationRequest};
use upcount::project::{CreateProjectRequest, UpdateProjectRequest};
use upcount::tax_rate::{CreateTaxRateRequest, UpdateTaxRateRequest};
use upcount::time_tracking::{
    CreateTagRequest, CreateTimeEntryRequest, UpdateTagRequest, UpdateTimeEntryRequest,
};

fn org_request(id: &str, name: Option<&str>) -> CreateOrganizationRequest {
    CreateOrganizationRequest {
        id: id.to_string(),
        name: name.map(|n| n.to_string()),
        country: None,
        address: None,
        email: None,
        phone: None,
        website: None,
        registration_number: None,
        vatin: None,
        bank_name: None,
        iban: None,
        currency: Some("EUR".to_string()),
        minimum_fraction_digits: Some(2),
        due_days: Some(14),
        overdue_charge: None,
        customer_notes: None,
        logo: Some(vec![1, 2, 3]),
        invoice_number_format: Some("YYYY-NNNN".to_string()),
        date_format: None,
    }
}

fn empty_org_patch() -> UpdateOrganizationRequest {
    UpdateOrganizationRequest {
        name: None,
        country: None,
        address: None,
        email: None,
        phone: None,
        website: None,
        registration_number: None,
        vatin: None,
        bank_name: None,
        iban: None,
        currency: None,
        minimum_fraction_digits: None,
        due_days: None,
        overdue_charge: None,
        customer_notes: None,
        logo: None,
        invoice_number_format: None,
        invoice_number_counter: None,
        date_format: None,
    }
}

fn client_request(id: &str, org: &str, name: &str) -> CreateClientRequest {
    CreateClientRequest {
        id: id.to_string(),
        organization_id: org.to_string(),
        name: Some(name.to_string()),
        code: None,
        address: None,
        emails: None,
        phone: None,
        website: None,
        registration_number: None,
        vatin: None,
    }
}

fn line_item(description: &str, quantity: f64, unit_price: i64) -> CreateInvoiceLineItemRequest {
    CreateInvoiceLineItemRequest {
        description: Some(description.to_string()),
        quantity: Real::from_bits(quantity.to_bits()),
        unit_price,
        tax_rate: None,
    }
}

fn invoice_request(id: &str, org: &str, client: &str, date: i64) -> CreateInvoiceRequest {
    CreateInvoiceRequest {
        id: id.to_string(),
        organization_id: org.to_string(),
        number: "2024-0001".to_string(),
        state: "draft".to_string(),
        client_id: client.to_string(),
        date,
        due_date: None,
        currency: "EUR".to_string(),
        customer_notes: None,
        total: 12000,
        tax_total: 2000,
        sub_total: 10000,
        line_items: vec![line_item("work", 1.0, 10000)],
    }
}

fn empty_invoice_patch() -> UpdateInvoiceRequest {
    UpdateInvoiceRequest {
        number: None,
        state: None,
        client_id: None,
        date: None,
        due_date: None,
        currency: None,
        customer_notes: None,
        total: None,
        tax_total: None,
        sub_total: None,
        line_items: None,
    }
}

fn tax_request(id: &str, org: &str, name: &str, percentage: f64, is_default: i64) -> CreateTaxRateRequest {
    CreateTaxRateRequest {
        id: id.to_string(),
        organization_id: org.to_string(),
        name: name.to_string(),
        description: None,
        percentage: Real::from_bits(percentage.to_bits()),
        is_default: Some(is_default),
    }
}

fn seeded() -> Database {
    let mut db = Database::new();
    db.create_organization(org_request("o1", Some("Org One"))).unwrap();
    db
}

fn seeded_with_client() -> Database {
    let mut db = seeded();
    db.create_client(client_request("c1", "o1", "Acme")).unwrap();
    db
}

#[test]
fn create_and_list_client() {
    let mut db = seeded();
    let created = db.create_client(client_request("c1", "o1", "Acme")).unwrap();
    assert_eq!(created.id, "c1");
    assert_eq!(created.name.as_deref(), Some("Acme"));
    let listed = db.get_clients("o1");
    assert_eq!(listed.len(), 1);
    assert_eq!(listed[0].id, "c1");
    assert_eq!(listed[0].name.as_deref(), Some("Acme"));
    assert_eq!(db.get_client("c1").unwrap().name.as_deref(), Some("Acme"));
}

#[test]
fn invoice_lifecycle_with_counter() {
    let mut db = seeded_with_client();
    assert_eq!(db.get_organization("o1").unwrap().invoice_number_counter, Some(0));
    let inv = db.create_invoice(invoice_request("i1", "o1", "c1", 1700000000000)).unwrap();
    assert_eq!(inv.client_name.as_deref(), Some("Acme"));
    assert_eq!(db.get_invoice("i1").unwrap().client_name.as_deref(), Some("Acme"));
    assert_eq!(db.get_invoice_line_items("i1").len(), 1);
    assert_eq!(db.get_organization("o1").unwrap().invoice_number_counter, Some(1));
}

#[test]
fn update_replaces_line_items() {
    let mut db = seeded_with_client();
    db.create_invoice(invoice_request("i1", "o1", "c1", 1700000000000)).unwrap();
    let mut patch = empty_invoice_patch();
    patch.line_items = Some(vec![line_item("A", 2.0, 500), line_item("B", 1.0, 750)]);
    db.update_invoice("i1", patch).unwrap();
    let items = db.get_invoice_line_items("i1");
    assert_eq!(items.len(), 2);
    assert_eq!(items[0].description.as_deref(), Some("A"));
    assert_eq!(items[1].description.as_deref(), Some("B"));
    assert_eq!(items[0].unit_price, 500);
    assert_eq!(f64::from_bits(items[0].quantity.to_bits()), 2.0);
    assert_eq!(db.get_organization("o1").unwrap().invoice_number_counter, Some(1));
}

#[test]
fn delete_invoice_cascades_line_items() {
    let mut db = seeded_with_client();
    db.create_invoice(invoice_request("i1", "o1", "c1", 1700000000000)).unwrap();
    let mut patch = empty_invoice_patch();
    patch.line_items = Some(vec![line_item("A", 2.0, 500), line_item("B", 1.0, 750)]);
    db.update_invoice("i1", patch).unwrap();
    assert!(db.delete_invoice("i1"));
    assert!(db.get_invoice("i1").is_none());
    assert!(db.get_invoice_line_items("i1").is_empty());
}

#[test]
fn tax_rate_default_uniqueness() {
    let mut db = seeded();
    db.create_tax_rate(tax_request("t1", "o1", "VAT20", 20.0, 1)).unwrap();
    db.create_tax_rate(tax_request("t2", "o1", "VAT10", 10.0, 1)).unwrap();
    assert_eq!(db.get_tax_rate("t1").unwrap().is_default, Some(0));
    assert_eq!(db.get_tax_rate("t2").unwrap().is_default, Some(1));
}

#[test]
fn tax_rate_update_to_default_clears_siblings() {
    let mut db = seeded();
    db.create_organization(org_request("o2", Some("Org Two"))).unwrap();
    db.create_tax_rate(tax_request("t1", "o1", "VAT20", 20.0, 1)).unwrap();
    db.create_tax_rate(tax_request("t2", "o1", "VAT10", 10.0, 0)).unwrap();
    db.create_tax_rate(tax_request("t3", "o2", "VAT5", 5.0, 1)).unwrap();
    let patch = UpdateTaxRateRequest { name: None, description: None, percentage: None, is_default: Some(1) };
    let t2 = db.update_tax_rate("t2", patch).unwrap();
    assert_eq!(t2.is_default, Some(1));
    assert_eq!(t2.name, "VAT10");
    assert_eq!(db.get_tax_rate("t1").unwrap().is_default, Some(0));
    // another organization's default is untouched
    assert_eq!(db.get_tax_rate("t3").unwrap().is_default, Some(1));
    let defaults = db.get_tax_rates("o1").iter().filter(|t| t.is_default == Some(1)).count();
    assert_eq!(defaults, 1);
}

#[test]
fn tax_rate_update_missing_is_not_found() {
    let mut db = seeded();
    let patch = UpdateTaxRateRequest { name: None, description: None, percentage: None, is_default: Some(1) };
    assert_eq!(db.update_tax_rate("nope", patch), Err(DbError::NotFound));
}

#[test]
fn tax_rates_listed_by_name() {
    let mut db = seeded();
    db.create_tax_rate(tax_request("t1", "o1", "b-rate", 20.0, 0)).unwrap();
    db.create_tax_rate(tax_request("t2", "o1", "a-rate", 10.0, 0)).unwrap();
    db.create_tax_rate(tax_request("t3", "o1", "B-rate", 5.0, 0)).unwrap();
    let names: Vec<String> = db.get_tax_rates("o1").into_iter().map(|t| t.name).collect();
    assert_eq!(names, vec!["B-rate", "a-rate", "b-rate"]);
}

#[test]
fn read_after_update_client_replaces_declared_fields() {
    let mut db = seeded();
    let mut req = client_request("c1", "o1", "Acme");
    req.code = Some("AC".to_string());
    db.create_client(req).unwrap();
    let patch = UpdateClientRequest {
        name: Some("Acme Ltd".to_string()),
        code: None,
        address: Some("Main St 1".to_string()),
        emails: None,
        phone: None,
        website: None,
        registration_number: None,
        vatin: None,
    };
    let updated = db.update_client("c1", patch).unwrap();
    assert_eq!(updated.name.as_deref(), Some("Acme Ltd"));
    // full replace: a missing value clears the column
    assert_eq!(updated.code, None);
    assert_eq!(db.get_client("c1").unwrap(), updated);
}

#[test]
fn read_after_update_organization_coalesces() {
    let mut db = seeded();
    let mut patch = empty_org_patch();
    patch.name = Some("Renamed".to_string());
    patch.invoice_number_counter = Some(41);
    let updated = db.update_organization("o1", patch).unwrap();
    assert_eq!(updated.name.as_deref(), Some("Renamed"));
    assert_eq!(updated.currency.as_deref(), Some("EUR"));
    assert_eq!(updated.logo, Some(vec![1, 2, 3]));
    assert_eq!(updated.invoice_number_counter, Some(41));
    assert_eq!(db.get_organization("o1").unwrap(), updated);
}

#[test]
fn read_after_update_invoice_coalesces_header() {
    let mut db = seeded_with_client();
    db.create_invoice(invoice_request("i1", "o1", "c1", 1700000000000)).unwrap();
    let mut patch = empty_invoice_patch();
    patch.state = Some("sent".to_string());
    patch.total = Some(15000);
    let updated = db.update_invoice("i1", patch).unwrap();
    assert_eq!(updated.state, "sent");
    assert_eq!(updated.total, 15000);
    assert_eq!(updated.sub_total, 10000);
    assert_eq!(updated.number, "2024-0001");
    assert_eq!(db.get_invoice("i1").unwrap(), updated);
    // no line items in the patch: the existing ones stay
    assert_eq!(db.get_invoice_line_items("i1").len(), 1);
}

#[test]
fn idempotent_delete_of_every_kind() {
    let mut db = seeded_with_client();
    db.create_invoice(invoice_request("i1", "o1", "c1", 1)).unwrap();
    db.create_tax_rate(tax_request("t1", "o1", "VAT", 20.0, 0)).unwrap();
    db.create_tag(CreateTagRequest {
        id: "g1".to_string(),
        organization_id: "o1".to_string(),
        name: "urgent".to_string(),
        color: "red".to_string(),
    })
    .unwrap();
    assert!(db.delete_invoice("i1"));
    assert!(!db.delete_invoice("i1"));
    assert!(db.delete_tax_rate("t1"));
    assert!(!db.delete_tax_rate("t1"));
    assert!(db.delete_tag("g1"));
    assert!(!db.delete_tag("g1"));
    assert!(db.delete_client("c1"));
    assert!(!db.delete_client("c1"));
    assert!(db.delete_organization("o1"));
    assert!(!db.delete_organization("o1"));
}

#[test]
fn tenant_isolation_of_lists() {
    let mut db = seeded();
    db.create_organization(org_request("o2", Some("Org Two"))).unwrap();
    db.create_client(client_request("c1", "o1", "Acme")).unwrap();
    db.create_client(client_request("c2", "o2", "Beta")).unwrap();
    db.create_invoice(invoice_request("i1", "o1", "c1", 5)).unwrap();
    db.create_invoice(invoice_request("i2", "o2", "c2", 6)).unwrap();
    let clients = db.get_clients("o1");
    assert_eq!(clients.len(), 1);
    assert!(clients.iter().all(|c| c.organization_id == "o1"));
    let invoices = db.get_invoices("o2");
    assert_eq!(invoices.len(), 1);
    assert_eq!(invoices[0].id, "i2");
    assert!(db.get_invoices("o3").is_empty());
}

#[test]
fn invoices_listed_newest_first() {
    let mut db = seeded_with_client();
    db.create_invoice(invoice_request("i1", "o1", "c1", 100)).unwrap();
    db.create_invoice(invoice_request("i2", "o1", "c1", 300)).unwrap();
    db.create_invoice(invoice_request("i3", "o1", "c1", 200)).unwrap();
    let ids: Vec<String> = db.get_invoices("o1").into_iter().map(|i| i.id).collect();
    assert_eq!(ids, vec!["i2", "i3", "i1"]);
    assert_eq!(db.get_client_invoice_count("c1"), 3);
    assert_eq!(db.get_client_invoice_count("c9"), 0);
    assert_eq!(db.get_organization("o1").unwrap().invoice_number_counter, Some(3));
}

#[test]
fn clients_listed_by_name_missing_first() {
    let mut db = seeded();
    db.create_client(client_request("c1", "o1", "Zeta")).unwrap();
    let mut nameless = client_request("c2", "o1", "");
    nameless.name = None;
    db.create_client(nameless).unwrap();
    db.create_client(client_request("c3", "o1", "Alpha")).unwrap();
    let ids: Vec<String> = db.get_clients("o1").into_iter().map(|c| c.id).collect();
    assert_eq!(ids, vec!["c2", "c3", "c1"]);
}

#[test]
fn organizations_listed_by_name() {
    let mut db = Database::new();
    db.create_organization(org_request("o1", Some("b"))).unwrap();
    db.create_organization(org_request("o2", Some("a"))).unwrap();
    let ids: Vec<String> = db.get_organizations().into_iter().map(|o| o.id).collect();
    assert_eq!(ids, vec!["o2", "o1"]);
}

#[test]
fn failed_invoice_creation_keeps_counter() {
    let mut db = seeded_with_client();
    db.create_invoice(invoice_request("i1", "o1", "c1", 1)).unwrap();
    // duplicate identifier
    assert_eq!(db.create_invoice(invoice_request("i1", "o1", "c1", 2)), Err(DbError::Conflict));
    // missing client
    assert_eq!(db.create_invoice(invoice_request("i2", "o1", "c9", 2)), Err(DbError::ForeignKey));
    // missing organization
    assert_eq!(db.create_invoice(invoice_request("i3", "o9", "c1", 2)), Err(DbError::ForeignKey));
    assert_eq!(db.get_organization("o1").unwrap().invoice_number_counter, Some(1));
    assert_eq!(db.get_invoice_line_items("i2").len(), 0);
}

#[test]
fn invoice_counter_at_limit_is_conflict() {
    let mut db = seeded_with_client();
    let mut patch = empty_org_patch();
    patch.invoice_number_counter = Some(i64::MAX);
    db.update_organization("o1", patch).unwrap();
    assert_eq!(db.create_invoice(invoice_request("i1", "o1", "c1", 1)), Err(DbError::Conflict));
    assert!(db.get_invoice("i1").is_none());
}

#[test]
fn error_variants_of_the_repositories() {
    let mut db = seeded();
    assert_eq!(db.create_client(client_request("c1", "o9", "X")), Err(DbError::ForeignKey));
    db.create_client(client_request("c1", "o1", "X")).unwrap();
    assert_eq!(db.create_client(client_request("c1", "o1", "Y")), Err(DbError::Conflict));
    assert!(matches!(db.create_organization(org_request("o1", None)), Err(DbError::Conflict)));
    let patch = UpdateClientRequest {
        name: None,
        code: None,
        address: None,
        emails: None,
        phone: None,
        website: None,
        registration_number: None,
        vatin: None,
    };
    assert_eq!(db.update_client("c9", patch), Err(DbError::NotFound));
    assert!(matches!(db.update_organization("o9", empty_org_patch()), Err(DbError::NotFound)));
    assert_eq!(db.update_invoice("i9", empty_invoice_patch()), Err(DbError::NotFound));
    let mut move_client = empty_invoice_patch();
    move_client.client_id = Some("c9".to_string());
    db.create_invoice(invoice_request("i1", "o1", "c1", 1)).unwrap();
    assert_eq!(db.update_invoice("i1", move_client), Err(DbError::ForeignKey));
    assert_eq!(db.get_invoice("i1").unwrap().client_id, "c1");
}

#[test]
fn line_item_identifiers_are_minted() {
    let mut db = seeded_with_client();
    let mut req = invoice_request("i1", "o1", "c1", 1);
    req.line_items = vec![line_item("a", 1.0, 1), line_item("b", 1.0, 2)];
    db.create_invoice(req).unwrap();
    let items = db.get_invoice_line_items("i1");
    assert_eq!(items.len(), 2);
    for item in &items {
        assert_eq!(item.id.chars().count(), 21);
        assert!(item.id.chars().all(|c| c.is_ascii_alphanumeric() || c == '_' || c == '-'));
        assert_eq!(item.invoice_id, "i1");
    }
    assert_ne!(items[0].id, items[1].id);
}

#[test]
fn create_invoice_at_uses_given_ids() {
    let mut db = seeded_with_client();
    let mut req = invoice_request("i1", "o1", "c1", 1);
    req.line_items = vec![line_item("a", 1.5, 1), line_item("b", 2.0, 2)];
    let inv = db
        .create_invoice_at(req, "2024-01-02 03:04:05".to_string(), vec!["x".to_string(), "y".to_string()])
        .unwrap();
    assert_eq!(inv.created_at.as_deref(), Some("2024-01-02 03:04:05"));
    let items = db.get_invoice_line_items("i1");
    assert_eq!(items[0].id, "x");
    assert_eq!(items[1].id, "y");
    assert_eq!(f64::from_bits(items[0].quantity.to_bits()), 1.5);
    assert_eq!(items[1].created_at.as_deref(), Some("2024-01-02 03:04:05"));
}

#[test]
fn tags_and_time_entries() {
    let mut db = seeded_with_client();
    let tag = db
        .create_tag_at(
            CreateTagRequest {
                id: "g1".to_string(),
                organization_id: "o1".to_string(),
                name: "urgent".to_string(),
                color: "red".to_string(),
            },
            "2024-05-06 07:08:09".to_string(),
        )
        .unwrap();
    assert_eq!(tag.created_at.as_deref(), Some("2024-05-06 07:08:09"));
    let tag = db
        .update_tag("g1", UpdateTagRequest { name: None, color: Some("blue".to_string()) })
        .unwrap();
    assert_eq!(tag.name, "urgent");
    assert_eq!(tag.color, "blue");
    assert_eq!(db.get_tags("o1").len(), 1);

    let entry = db
        .create_time_entry(CreateTimeEntryRequest {
            id: "e1".to_string(),
            organization_id: "o1".to_string(),
            client_id: Some("c1".to_string()),
            description: Some("coding".to_string()),
            start_time: 1000,
            end_time: None,
            duration: 30,
            tags: Some("[\"urgent\"]".to_string()),
            is_billable: 1,
            hourly_rate: Some(Real::from_bits(50.0f64.to_bits())),
        })
        .unwrap();
    assert_eq!(entry.client_name.as_deref(), Some("Acme"));
    assert_eq!(entry.end_time, None);
    assert_eq!(entry.duration, 30);
    let entry = db
        .update_time_entry(
            "e1",
            UpdateTimeEntryRequest {
                client_id: None,
                description: None,
                start_time: None,
                end_time: Some(2000),
                duration: Some(60),
                tags: None,
                is_billable: None,
                hourly_rate: None,
            },
        )
        .unwrap();
    assert_eq!(entry.end_time, Some(2000));
    assert_eq!(entry.description.as_deref(), Some("coding"));
    assert_eq!(db.get_time_entry("e1").unwrap(), entry);
    assert!(db.delete_time_entry("e1"));
    assert!(!db.delete_time_entry("e1"));
}

#[test]
fn time_entries_listed_latest_first_with_missing_client() {
    let mut db = seeded();
    for (id, start) in [("e1", 10), ("e2", 30), ("e3", 20)] {
        db.create_time_entry(CreateTimeEntryRequest {
            id: id.to_string(),
            organization_id: "o1".to_string(),
            client_id: None,
            description: None,
            start_time: start,
            end_time: None,
            duration: 0,
            tags: None,
            is_billable: 0,
            hourly_rate: None,
        })
        .unwrap();
    }
    let ids: Vec<String> = db.get_time_entries("o1").into_iter().map(|e| e.id).collect();
    assert_eq!(ids, vec!["e2", "e3", "e1"]);
    let bad = CreateTimeEntryRequest {
        id: "e4".to_string(),
        organization_id: "o1".to_string(),
        client_id: Some("c9".to_string()),
        description: None,
        start_time: 0,
        end_time: None,
        duration: 0,
        tags: None,
        is_billable: 0,
        hourly_rate: None,
    };
    assert_eq!(db.create_time_entry(bad), Err(DbError::ForeignKey));
}

#[test]
fn projects_create_update_and_list() {
    let mut db = seeded_with_client();
    let p = db
        .create_project(CreateProjectRequest {
            id: "pr-web".to_string(),
            organization_id: "o1".to_string(),
            name: "Website".to_string(),
            client_id: Some("c1".to_string()),
            start_date: Some(1),
            end_date: None,
            archived_at: None,
        })
        .unwrap();
    assert_eq!(p.client_name.as_deref(), Some("Acme"));
    db.create_project(CreateProjectRequest {
        id: "pr-app".to_string(),
        organization_id: "o1".to_string(),
        name: "App".to_string(),
        client_id: None,
        start_date: None,
        end_date: None,
        archived_at: None,
    })
    .unwrap();
    let p = db
        .update_project(
            "pr-web",
            UpdateProjectRequest { name: None, client_id: None, start_date: None, end_date: Some(9), archived_at: Some(10) },
        )
        .unwrap();
    assert_eq!(p.name, "Website");
    assert_eq!(p.end_date, Some(9));
    assert_eq!(p.archived_at, Some(10));
    assert_eq!(p.start_date, Some(1));
    let names: Vec<String> = db.get_projects("o1").into_iter().map(|p| p.name).collect();
    assert_eq!(names, vec!["App", "Website"]);
    assert_eq!(db.get_project("pr-web").unwrap(), p);
}

#[test]
fn deleting_a_client_hides_its_invoices_from_reads() {
    let mut db = seeded_with_client();
    db.create_invoice(invoice_request("i1", "o1", "c1", 1)).unwrap();
    assert!(db.delete_client("c1"));
    // no cascade: the row stays, but reads join the client
    assert_eq!(db.get_client_invoice_count("c1"), 1);
    assert!(db.get_invoice("i1").is_none());
    assert!(db.get_invoices("o1").is_empty());
}
