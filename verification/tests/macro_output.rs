use proc_macro2::TokenStream;
use quote::ToTokens;
use syn::DeriveInput;
use traity_trait::{todo_app_impl, RenameError};

fn tokens(source: &str) -> TokenStream {
    source.parse().unwrap()
}

// The tokens of an item, spaced as printed items are.
fn quoted(source: &str) -> TokenStream {
    syn::parse_str::<DeriveInput>(source).unwrap().to_token_stream()
}

// Parses a struct and runs the renamer on it.
fn apply_todo_app_macro(input: TokenStream) -> Result<TokenStream, RenameError> {
    let mut parsed_input: DeriveInput = syn::parse2(input).unwrap();
    todo_app_impl(&mut parsed_input)
}

// Evens out the whitespace around angle brackets and commas.
fn normalize_tokens(tokens: TokenStream) -> String {
    tokens
        .to_string()
        .replace(" >", ">")
        .replace("> >", ">>")
        .replace("< ", "<")
        .replace(" <", "<")
        .replace(" ,", ",")
        .replace("  ", " ")
        .trim()
        .to_string()
}

fn assert_tokens_eq(left: TokenStream, right: TokenStream) {
    let left_normalized = normalize_tokens(left);
    let right_normalized = normalize_tokens(right);
    if left_normalized != right_normalized {
        println!("Token comparison failed:");
        println!("Left:  {}", left_normalized);
        println!("Right: {}", right_normalized);
        assert_eq!(left_normalized, right_normalized);
    }
}

#[test]
fn test_simple_struct_transformation() {
    let input = tokens(
        "struct User {
            name: String,
            email: String,
        }",
    );

    let result = apply_todo_app_macro(input).unwrap();
    let expected = quoted(
        "struct User {
            #[serde(rename = \"TodoAppName\")]
            name: String,
            #[serde(rename = \"TodoAppEmail\")]
            email: String,
        }",
    );

    assert_eq!(result.to_string(), expected.to_string());
}

#[test]
fn test_struct_with_snake_case_fields() {
    let input = tokens(
        "struct UserProfile {
            first_name: String,
            last_name: String,
            email_address: String,
            phone_number: Option<String>,
        }",
    );

    let result = apply_todo_app_macro(input).unwrap();
    let expected = quoted(
        "struct UserProfile {
            #[serde(rename = \"TodoAppFirstName\")]
            first_name: String,
            #[serde(rename = \"TodoAppLastName\")]
            last_name: String,
            #[serde(rename = \"TodoAppEmailAddress\")]
            email_address: String,
            #[serde(rename = \"TodoAppPhoneNumber\")]
            phone_number: Option<String>,
        }",
    );

    assert_eq!(result.to_string(), expected.to_string());
}

#[test]
fn test_struct_with_visibility_modifiers() {
    let input = tokens(
        "pub struct User {
            pub name: String,
            pub(crate) email: String,
            private_field: i32,
        }",
    );

    let result = apply_todo_app_macro(input).unwrap();
    let expected = quoted(
        "pub struct User {
            #[serde(rename = \"TodoAppName\")]
            pub name: String,
            #[serde(rename = \"TodoAppEmail\")]
            pub(crate) email: String,
            #[serde(rename = \"TodoAppPrivateField\")]
            private_field: i32,
        }",
    );

    assert_eq!(result.to_string(), expected.to_string());
}

#[test]
fn test_struct_with_existing_attributes() {
    let input = tokens(
        "#[derive(Debug, Clone)]
        #[serde(rename_all = \"camelCase\")]
        struct User {
            #[serde(skip_serializing_if = \"Option::is_none\")]
            name: Option<String>,
            #[doc = \"User's email address\"]
            email: String,
        }",
    );

    let result = apply_todo_app_macro(input).unwrap();
    let expected = quoted(
        "#[derive(Debug, Clone)]
        #[serde(rename_all = \"camelCase\")]
        struct User {
            #[serde(skip_serializing_if = \"Option::is_none\")]
            #[serde(rename = \"TodoAppName\")]
            name: Option<String>,
            #[doc = \"User's email address\"]
            #[serde(rename = \"TodoAppEmail\")]
            email: String,
        }",
    );

    assert_eq!(result.to_string(), expected.to_string());
}

#[test]
fn test_struct_with_complex_types() {
    let input = tokens(
        "struct ComplexStruct {
            vec_field: Vec<String>,
            hash_map_field: std::collections::HashMap<String, i32>,
            tuple_field: (String, i32, bool),
            reference_field: &'static str,
            generic_field: Option<Box<dyn std::fmt::Display>>,
        }",
    );

    let result = apply_todo_app_macro(input).unwrap();
    let expected = quoted(
        "struct ComplexStruct {
            #[serde(rename = \"TodoAppVecField\")]
            vec_field: Vec<String>,
            #[serde(rename = \"TodoAppHashMapField\")]
            hash_map_field: std::collections::HashMap<String, i32>,
            #[serde(rename = \"TodoAppTupleField\")]
            tuple_field: (String, i32, bool),
            #[serde(rename = \"TodoAppReferenceField\")]
            reference_field: &'static str,
            #[serde(rename = \"TodoAppGenericField\")]
            generic_field: Option<Box<dyn std::fmt::Display>>,
        }",
    );

    assert_tokens_eq(result, expected);
}

#[test]
fn test_empty_struct() {
    let input = tokens("struct EmptyStruct {}");

    let result = apply_todo_app_macro(input).unwrap();
    let expected = quoted(
        "struct EmptyStruct {
        }",
    );

    assert_eq!(result.to_string(), expected.to_string());
}

#[test]
fn test_single_field_struct() {
    let input = tokens(
        "struct SingleField {
            value: i32,
        }",
    );

    let result = apply_todo_app_macro(input).unwrap();
    let expected = quoted(
        "struct SingleField {
            #[serde(rename = \"TodoAppValue\")]
            value: i32,
        }",
    );

    assert_eq!(result.to_string(), expected.to_string());
}

#[test]
fn test_struct_with_generics() {
    let input = tokens(
        "struct GenericStruct<T, U> {
            field1: T,
            field2: U,
            field3: Vec<T>,
        }",
    );

    let result = apply_todo_app_macro(input).unwrap();
    let expected = quoted(
        "struct GenericStruct<T, U> {
            #[serde(rename = \"TodoAppField1\")]
            field1: T,
            #[serde(rename = \"TodoAppField2\")]
            field2: U,
            #[serde(rename = \"TodoAppField3\")]
            field3: Vec<T>,
        }",
    );

    assert_eq!(result.to_string(), expected.to_string());
}

#[test]
fn test_struct_with_where_clause() {
    let input = tokens(
        "struct ConstrainedStruct<T>
        where
            T: Clone + Send
        {
            data: T,
        }",
    );

    let result = apply_todo_app_macro(input).unwrap();
    let expected = quoted(
        "struct ConstrainedStruct<T>
        where
            T: Clone + Send
        {
            #[serde(rename = \"TodoAppData\")]
            data: T,
        }",
    );

    assert_eq!(result.to_string(), expected.to_string());
}

#[test]
fn test_struct_with_lifetimes() {
    let input = tokens(
        "struct LifetimeStruct<'a> {
            name: &'a str,
            data: &'a [u8],
        }",
    );

    let result = apply_todo_app_macro(input).unwrap();
    let expected = quoted(
        "struct LifetimeStruct<'a> {
            #[serde(rename = \"TodoAppName\")]
            name: &'a str,
            #[serde(rename = \"TodoAppData\")]
            data: &'a [u8],
        }",
    );

    assert_eq!(result.to_string(), expected.to_string());
}

#[test]
fn printed_text_of_a_tagged_struct() {
    let input = tokens("pub struct SingleField<T> { value: Option<T>, other_value: i32 }");
    let result = apply_todo_app_macro(input).unwrap();
    assert_eq!(
        result.to_string(),
        "pub struct SingleField < T > { # [serde (rename = \"TodoAppValue\")] value : Option < T > , # [serde (rename = \"TodoAppOtherValue\")] other_value : i32 }"
    );
}
