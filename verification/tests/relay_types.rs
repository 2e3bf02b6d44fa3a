//! Relay type compatibility: models of real-world Flow types from Relay,
//! declared and compared with the expected Flow output.

use flowjs_rs::attr::{ContainerAttr, FieldAttr, FlowEnumRepr, Optional, VariantAttr};
use flowjs_rs::config::Config;
use flowjs_rs::inflection::Inflection;
use flowjs_rs::model::{Data, FieldDef, Fields, FlowType, TypeDef, VariantDef};

fn cfg() -> Config {
    Config::new()
}

fn f(name: &str, ty: FlowType) -> FieldDef {
    FieldDef { ident: name.to_owned(), ty, type_as: None, attr: FieldAttr::empty() }
}

fn rn(mut field: FieldDef, name: &str) -> FieldDef {
    field.attr.rename = Some(name.to_owned());
    field
}

fn typed(mut field: FieldDef, t: &str) -> FieldDef {
    field.attr.type_override = Some(t.to_owned());
    field
}

fn opt(mut field: FieldDef) -> FieldDef {
    field.attr.optional = Optional::Optional { nullable: false };
    field
}

fn def(name: &str, data: Data) -> TypeDef {
    TypeDef {
        ident: name.to_owned(),
        generics: vec![],
        docs: vec![],
        attr: ContainerAttr::empty(),
        type_as: None,
        data,
        opaque_newtypes: false,
    }
}

fn ty(d: TypeDef) -> FlowType {
    FlowType::Defined(Box::new(d), vec![])
}

fn named(fields: Vec<FieldDef>) -> Data {
    Data::Struct(Fields::Named(fields))
}

fn v(name: &str, fields: Fields) -> VariantDef {
    VariantDef { ident: name.to_owned(), fields, type_as: None, discriminant: None, attr: VariantAttr::empty() }
}

fn vr(name: &str, rename: &str, fields: Vec<FieldDef>) -> VariantDef {
    let mut x = v(name, Fields::Named(fields));
    x.attr.rename = Some(rename.to_owned());
    x
}

fn text() -> FlowType {
    FlowType::Text
}

fn nullable(t: FlowType) -> FlowType {
    FlowType::Nullable(Box::new(t))
}

fn array(t: FlowType) -> FlowType {
    FlowType::ReadOnlyArray(Box::new(t))
}

fn type_override(name: &str, t: &str) -> FlowType {
    let mut d = def(name, Data::Struct(Fields::Unit));
    d.attr.type_override = Some(t.to_owned());
    ty(d)
}

fn string_enum(name: &str, variants: Vec<VariantDef>) -> TypeDef {
    let mut d = def(name, Data::Enum(variants));
    d.attr.flow_enum = Some(FlowEnumRepr::String);
    d
}

fn unit_renamed(name: &str, rename: &str) -> VariantDef {
    let mut x = v(name, Fields::Unit);
    x.attr.rename = Some(rename.to_owned());
    x
}

#[test]
fn file_01_feature_flags() {
    let c = cfg();
    let decl = ty(def(
        "FeatureFlags",
        named(vec![
            rn(f("enable_variable_connection_key", FlowType::Boolean), "ENABLE_VARIABLE_CONNECTION_KEY"),
            rn(f("enable_relay_resolvers", FlowType::Boolean), "ENABLE_RELAY_RESOLVERS"),
            rn(
                f("enable_getfragmentidentifier_optimization", FlowType::Boolean),
                "ENABLE_GETFRAGMENTIDENTIFIER_OPTIMIZATION",
            ),
            rn(f("enable_friendly_query_name_gql_url", FlowType::Boolean), "ENABLE_FRIENDLY_QUERY_NAME_GQL_URL"),
            rn(f("enable_do_not_wrap_live_query", FlowType::Boolean), "ENABLE_DO_NOT_WRAP_LIVE_QUERY"),
            rn(f("enable_notify_subscription", FlowType::Boolean), "ENABLE_NOTIFY_SUBSCRIPTION"),
            rn(
                f("enable_containers_subscribe_on_commit", FlowType::Boolean),
                "ENABLE_CONTAINERS_SUBSCRIBE_ON_COMMIT",
            ),
            rn(f("max_data_id_length", nullable(FlowType::Number)), "MAX_DATA_ID_LENGTH"),
            rn(f("string_intern_level", FlowType::Number), "STRING_INTERN_LEVEL"),
            rn(f("log_missing_records_in_prod", FlowType::Boolean), "LOG_MISSING_RECORDS_IN_PROD"),
        ]),
    ))
    .decl(&c);
    assert!(decl.contains("type FeatureFlags"), "{decl}");
    assert!(decl.contains("ENABLE_VARIABLE_CONNECTION_KEY: boolean"), "{decl}");
    assert!(decl.contains("ENABLE_RELAY_RESOLVERS: boolean"), "{decl}");
    assert!(decl.contains("MAX_DATA_ID_LENGTH: ?number"), "{decl}");
    assert!(decl.contains("STRING_INTERN_LEVEL: number"), "{decl}");
}

#[test]
fn file_02_connection_metadata() {
    let c = cfg();
    let decl = ty(def(
        "ConnectionMetadata",
        named(vec![
            f("path", nullable(array(text()))),
            typed(f("direction", nullable(text())), "?('forward' | 'backward' | 'bidirectional')"),
            f("cursor", nullable(text())),
            f("count", nullable(text())),
            opt(f("stream", nullable(FlowType::Boolean))),
        ]),
    ))
    .decl(&c);
    assert!(decl.contains("type ConnectionMetadata"), "{decl}");
    assert!(decl.contains("path: ?$ReadOnlyArray<string>"), "{decl}");
    assert!(decl.contains("direction: ?('forward' | 'backward' | 'bidirectional')"), "{decl}");
    assert!(decl.contains("cursor: ?string"), "{decl}");
    assert!(decl.contains("count: ?string"), "{decl}");
    assert!(decl.contains("stream?: ?boolean"), "{decl}");
}

fn argument_enum(name: &str, list_items: &str, object_fields: &str) -> TypeDef {
    let mut d = def(
        name,
        Data::Enum(vec![
            vr("ListValue", "ListValue", vec![f("name", text()), typed(f("items", array(text())), list_items)]),
            vr(
                "Literal",
                "Literal",
                vec![
                    f("name", text()),
                    opt(rn(f("type_field", nullable(text())), "type")),
                    typed(f("value", text()), "mixed"),
                ],
            ),
            vr("ObjectValue", "ObjectValue", vec![f("name", text()), typed(f("fields", array(text())), object_fields)]),
            vr(
                "Variable",
                "Variable",
                vec![
                    f("name", text()),
                    opt(rn(f("type_field", nullable(text())), "type")),
                    rn(f("variable_name", text()), "variableName"),
                ],
            ),
        ]),
    );
    d.attr.tag = Some("kind".to_owned());
    d
}

#[test]
fn file_03_reader_arguments() {
    let c = cfg();
    let decl = ty(argument_enum(
        "ReaderArgument",
        "$ReadOnlyArray<ReaderArgument | null>",
        "$ReadOnlyArray<ReaderArgument>",
    ))
    .decl(&c);
    assert!(decl.contains("type ReaderArgument"), "{decl}");
    // Check tag values
    assert!(decl.contains("kind: 'ListValue'"), "{decl}");
    assert!(decl.contains("kind: 'Literal'"), "{decl}");
    assert!(decl.contains("kind: 'ObjectValue'"), "{decl}");
    assert!(decl.contains("kind: 'Variable'"), "{decl}");
    // Check field names
    assert!(decl.contains("name: string"), "{decl}");
    assert!(decl.contains("items: $ReadOnlyArray<ReaderArgument | null>"), "{decl}");
    assert!(decl.contains("value: mixed"), "{decl}");
    assert!(decl.contains("variableName: string"), "{decl}");
}

#[test]
fn file_04_reader_fields() {
    let c = cfg();
    let args = || opt(typed(f("args", nullable(array(text()))), "?$ReadOnlyArray<mixed>"));
    let alias = || opt(f("alias", nullable(text())));
    let resolver = |name: &str| {
        vr(
            name,
            name,
            vec![
                alias(),
                f("name", text()),
                args(),
                opt(typed(f("fragment", nullable(text())), "?mixed")),
                f("path", text()),
                typed(rn(f("resolver_module", text()), "resolverModule"), "mixed"),
                opt(rn(f("normalization_info", nullable(text())), "normalizationInfo")),
            ],
        )
    };
    let mut d = def(
        "ReaderField",
        Data::Enum(vec![
            vr(
                "ScalarField",
                "ScalarField",
                vec![alias(), f("name", text()), args(), opt(rn(f("storage_key", nullable(text())), "storageKey"))],
            ),
            vr(
                "LinkedField",
                "LinkedField",
                vec![
                    alias(),
                    f("name", text()),
                    opt(rn(f("storage_key", nullable(text())), "storageKey")),
                    args(),
                    opt(rn(f("concrete_type", nullable(text())), "concreteType")),
                    f("plural", FlowType::Boolean),
                    typed(f("selections", array(text())), "$ReadOnlyArray<mixed>"),
                ],
            ),
            resolver("RelayResolver"),
            resolver("RelayLiveResolver"),
        ]),
    );
    d.attr.tag = Some("kind".to_owned());
    let decl = ty(d).decl(&c);
    assert!(decl.contains("type ReaderField"), "{decl}");
    assert!(decl.contains("kind: 'ScalarField'"), "{decl}");
    assert!(decl.contains("kind: 'LinkedField'"), "{decl}");
    assert!(decl.contains("kind: 'RelayResolver'"), "{decl}");
    assert!(decl.contains("kind: 'RelayLiveResolver'"), "{decl}");
    assert!(decl.contains("plural: boolean"), "{decl}");
}

#[test]
fn file_05_reader_selection() {
    let c = cfg();
    let decl = type_override(
        "ReaderSelection",
        "ReaderCondition | ReaderClientEdge | ReaderClientExtension | ReaderDefer | ReaderField | ReaderActorChange | ReaderFragmentSpread | ReaderInlineDataFragmentSpread | ReaderAliasedInlineFragmentSpread | ReaderInlineFragment | ReaderModuleImport | ReaderStream | ReaderCatchField | ReaderRequiredField | ReaderRelayResolver",
    )
    .decl(&c);
    assert!(decl.contains("type ReaderSelection"), "{decl}");
    assert!(decl.contains("ReaderCondition"), "{decl}");
    assert!(decl.contains("ReaderClientEdge"), "{decl}");
    assert!(decl.contains("ReaderField"), "{decl}");
    assert!(decl.contains("ReaderRelayResolver"), "{decl}");
    // Should have 14 union separators for 15 types
    let pipes = decl.matches(" | ").count();
    assert_eq!(pipes, 14, "expected 14 union pipes, got {pipes}: {decl}");
}

#[test]
fn file_06_request_parameters() {
    let c = cfg();
    let kind = "'mutation' | 'query' | 'subscription'";
    let mut d = def(
        "RequestParameters",
        Data::Enum(vec![
            v(
                "WithId",
                Fields::Named(vec![
                    f("id", text()),
                    typed(f("text", nullable(text())), "string | null"),
                    f("name", text()),
                    typed(rn(f("operation_kind", text()), "operationKind"), kind),
                ]),
            ),
            v(
                "WithCacheId",
                Fields::Named(vec![
                    rn(f("cache_id", text()), "cacheID"),
                    typed(f("id", nullable(text())), "null"),
                    typed(f("text", nullable(text())), "string | null"),
                    f("name", text()),
                    typed(rn(f("operation_kind", text()), "operationKind"), kind),
                ]),
            ),
        ]),
    );
    d.attr.untagged = true;
    let decl = ty(d).decl(&c);
    assert!(decl.contains("type RequestParameters"), "{decl}");
    assert!(decl.contains("id: string"), "{decl}");
    assert!(decl.contains("cacheID: string"), "{decl}");
    assert!(decl.contains("text: string | null"), "{decl}");
    assert!(decl.contains("operationKind: 'mutation' | 'query' | 'subscription'"), "{decl}");
    assert!(decl.contains(" | "), "should be union: {decl}");
}

fn with_data() -> TypeDef {
    def(
        "GraphQLResponseWithData",
        named(vec![
            typed(f("data", text()), "PayloadData"),
            opt(typed(f("errors", nullable(array(text()))), "Array<PayloadError>")),
            opt(typed(f("extensions", nullable(text())), "PayloadExtensions")),
            opt(f("label", nullable(text()))),
            opt(typed(f("path", nullable(array(text()))), "Array<string | number>")),
        ]),
    )
}

fn without_data() -> TypeDef {
    def(
        "GraphQLResponseWithoutData",
        named(vec![
            opt(typed(f("data", nullable(text())), "?PayloadData")),
            typed(f("errors", array(text())), "Array<PayloadError>"),
            opt(typed(f("extensions", nullable(text())), "PayloadExtensions")),
            opt(f("label", nullable(text()))),
            opt(typed(f("path", nullable(array(text()))), "Array<string | number>")),
        ]),
    )
}

fn extensions_only() -> TypeDef {
    def(
        "GraphQLResponseWithExtensionsOnly",
        named(vec![typed(f("data", nullable(text())), "null"), typed(f("extensions", text()), "PayloadExtensions")]),
    )
}

#[test]
fn file_07_graphql_response() {
    let c = cfg();
    // Individual structs
    let with_data_decl = ty(with_data()).decl(&c);
    assert!(with_data_decl.contains("data: PayloadData"), "{with_data_decl}");
    assert!(with_data_decl.contains("errors?: Array<PayloadError>"), "{with_data_decl}");

    let without_data_decl = ty(without_data()).decl(&c);
    assert!(without_data_decl.contains("data?: ?PayloadData"), "{without_data_decl}");
    assert!(without_data_decl.contains("errors: Array<PayloadError>"), "{without_data_decl}");

    let ext_only = ty(extensions_only()).decl(&c);
    assert!(ext_only.contains("data: null"), "{ext_only}");
    assert!(ext_only.contains("extensions: PayloadExtensions"), "{ext_only}");

    // Union type — untagged enum inlines each variant's struct body
    let mut union = def(
        "GraphQLSingularResponse",
        Data::Enum(vec![
            v("WithData", Fields::Unnamed(vec![ty(with_data())])),
            v("WithExtensionsOnly", Fields::Unnamed(vec![ty(extensions_only())])),
            v("WithoutData", Fields::Unnamed(vec![ty(without_data())])),
        ]),
    );
    union.attr.untagged = true;
    let union_decl = ty(union).decl(&c);
    assert!(union_decl.contains("type GraphQLSingularResponse"), "{union_decl}");
    let branch_count = union_decl.matches("|} | {|").count();
    assert_eq!(branch_count, 2, "expected 2 branch separators for 3 variants: {union_decl}");
    assert!(union_decl.contains("data: PayloadData"), "{union_decl}");
    assert!(union_decl.contains("data: null"), "{union_decl}");
    assert!(union_decl.contains("errors: Array<PayloadError>"), "{union_decl}");
}

#[test]
fn file_08_mutation_config() {
    let c = cfg();
    let parent_name = || opt(rn(f("parent_name", nullable(text())), "parentName"));
    let parent_id = || opt(rn(f("parent_id", nullable(text())), "parentID"));
    let connection_name = || opt(rn(f("connection_name", nullable(text())), "connectionName"));
    let mut d = def(
        "DeclarativeMutationConfig",
        Data::Enum(vec![
            v(
                "RangeAdd",
                Fields::Named(vec![
                    parent_name(),
                    parent_id(),
                    rn(f("edge_name", text()), "edgeName"),
                    connection_name(),
                ]),
            ),
            v(
                "RangeDelete",
                Fields::Named(vec![
                    parent_name(),
                    parent_id(),
                    typed(rn(f("deleted_id_field_name", text()), "deletedIDFieldName"), "string | Array<string>"),
                    typed(rn(f("path_to_connection", array(text())), "pathToConnection"), "Array<string>"),
                    connection_name(),
                ]),
            ),
            v(
                "NodeDelete",
                Fields::Named(vec![
                    parent_name(),
                    parent_id(),
                    rn(f("deleted_id_field_name", text()), "deletedIDFieldName"),
                    connection_name(),
                ]),
            ),
        ]),
    );
    d.attr.tag = Some("type".to_owned());
    d.attr.rename_all = Some(Inflection::ScreamingSnake);
    let decl = ty(d).decl(&c);
    assert!(decl.contains("type DeclarativeMutationConfig"), "{decl}");
    assert!(decl.contains("type: 'RANGE_ADD'"), "{decl}");
    assert!(decl.contains("type: 'RANGE_DELETE'"), "{decl}");
    assert!(decl.contains("type: 'NODE_DELETE'"), "{decl}");
    assert!(decl.contains("edgeName: string"), "{decl}");
    assert!(decl.contains("deletedIDFieldName: string | Array<string>"), "{decl}");
    assert!(decl.contains("pathToConnection: Array<string>"), "{decl}");
}

#[test]
fn file_09_normalization_types() {
    let c = cfg();

    // NormalizationArgument — tagged union
    let arg_decl = ty(argument_enum(
        "NormalizationArgument",
        "$ReadOnlyArray<NormalizationArgument | null>",
        "$ReadOnlyArray<NormalizationArgument>",
    ))
    .decl(&c);
    assert!(arg_decl.contains("type NormalizationArgument"), "{arg_decl}");
    assert!(arg_decl.contains("kind: 'ListValue'"), "{arg_decl}");
    assert!(arg_decl.contains("kind: 'Variable'"), "{arg_decl}");

    // NormalizationScalarField — struct with literal kind field
    let scalar_decl = ty(def(
        "NormalizationScalarField",
        named(vec![
            typed(f("kind", text()), "'ScalarField'"),
            opt(f("alias", nullable(text()))),
            f("name", text()),
            opt(typed(f("args", nullable(array(text()))), "?$ReadOnlyArray<NormalizationArgument>")),
            opt(rn(f("storage_key", nullable(text())), "storageKey")),
        ]),
    ))
    .decl(&c);
    assert!(scalar_decl.contains("kind: 'ScalarField'"), "{scalar_decl}");
    assert!(scalar_decl.contains("name: string"), "{scalar_decl}");

    // NormalizationLinkedField — struct with selections array
    let linked_decl = ty(def(
        "NormalizationLinkedField",
        named(vec![
            typed(f("kind", text()), "'LinkedField'"),
            opt(f("alias", nullable(text()))),
            f("name", text()),
            opt(rn(f("storage_key", nullable(text())), "storageKey")),
            opt(typed(f("args", nullable(array(text()))), "?$ReadOnlyArray<NormalizationArgument>")),
            opt(rn(f("concrete_type", nullable(text())), "concreteType")),
            f("plural", FlowType::Boolean),
            typed(f("selections", array(text())), "$ReadOnlyArray<NormalizationSelection>"),
        ]),
    ))
    .decl(&c);
    assert!(linked_decl.contains("kind: 'LinkedField'"), "{linked_decl}");
    assert!(linked_decl.contains("plural: boolean"), "{linked_decl}");
    assert!(linked_decl.contains("selections: $ReadOnlyArray<NormalizationSelection>"), "{linked_decl}");

    // NormalizationSelection — large union (container-level type override)
    let sel_decl = type_override(
        "NormalizationSelection",
        "NormalizationCondition | NormalizationScalarField | NormalizationLinkedField | NormalizationInlineFragment | NormalizationDefer | NormalizationStream | NormalizationActorChange | NormalizationTypeDiscriminator | NormalizationClientExtension",
    )
    .decl(&c);
    assert!(sel_decl.contains("type NormalizationSelection"), "{sel_decl}");
    assert!(sel_decl.contains("NormalizationCondition"), "{sel_decl}");
    assert!(sel_decl.contains("NormalizationScalarField"), "{sel_decl}");
    // 8 pipes for 9 members
    let sel_pipes = sel_decl.matches(" | ").count();
    assert_eq!(sel_pipes, 8, "expected 8 union pipes: {sel_decl}");
}

#[test]
fn file_10_cache_config_and_utils() {
    let c = cfg();

    // DataID — newtype
    let data_id_decl = ty(def("DataID", Data::Struct(Fields::Unnamed(vec![text()])))).decl(&c);
    assert_eq!(data_id_decl, "type DataID = string;");

    // CacheConfig — struct with optional fields
    let cache_decl = ty(def(
        "CacheConfig",
        named(vec![
            opt(f("force", nullable(FlowType::Boolean))),
            opt(f("poll", nullable(FlowType::Number))),
            opt(rn(f("live_config_id", nullable(text())), "liveConfigId")),
            opt(typed(f("on_subscribe", nullable(FlowType::Function(vec![], Box::new(FlowType::Null)))), "() => void")),
            opt(rn(f("transaction_id", nullable(text())), "transactionId")),
        ]),
    ))
    .decl(&c);
    assert!(cache_decl.contains("type CacheConfig"), "{cache_decl}");
    assert!(cache_decl.contains("force?: ?boolean"), "{cache_decl}");
    assert!(cache_decl.contains("poll?: ?number"), "{cache_decl}");
    assert!(cache_decl.contains("liveConfigId?: ?string"), "{cache_decl}");
    // Function field with type override
    assert!(cache_decl.contains("on_subscribe?: () => void"), "{cache_decl}");

    // FetchQueryFetchPolicy — Flow string enum with kebab-case
    let mut fetch = string_enum("FetchQueryFetchPolicy", vec![v("StoreOrNetwork", Fields::Unit), v("NetworkOnly", Fields::Unit)]);
    fetch.attr.rename_all = Some(Inflection::Kebab);
    let fetch_decl = ty(fetch).decl(&c);
    assert!(fetch_decl.contains("enum FetchQueryFetchPolicy of string"), "{fetch_decl}");
    assert!(fetch_decl.contains("StoreOrNetwork = 'store-or-network'"), "{fetch_decl}");
    assert!(fetch_decl.contains("NetworkOnly = 'network-only'"), "{fetch_decl}");

    // RenderPolicy — Flow string enum
    let render_decl =
        ty(string_enum("RenderPolicy", vec![unit_renamed("Full", "full"), unit_renamed("Partial", "partial")])).decl(&c);
    assert!(render_decl.contains("enum RenderPolicy of string"), "{render_decl}");
    assert!(render_decl.contains("Full = 'full'"), "{render_decl}");
    assert!(render_decl.contains("Partial = 'partial'"), "{render_decl}");

    // RequiredFieldAction — Flow string enum, SCREAMING values
    let req_decl = ty(string_enum(
        "RequiredFieldAction",
        vec![unit_renamed("None", "NONE"), unit_renamed("Log", "LOG"), unit_renamed("Throw", "THROW")],
    ))
    .decl(&c);
    assert!(req_decl.contains("enum RequiredFieldAction of string"), "{req_decl}");
    assert!(req_decl.contains("None = 'NONE'"), "{req_decl}");
    assert!(req_decl.contains("Log = 'LOG'"), "{req_decl}");
    assert!(req_decl.contains("Throw = 'THROW'"), "{req_decl}");

    // CatchFieldTo — Flow string enum
    let catch_decl =
        ty(string_enum("CatchFieldTo", vec![unit_renamed("Result", "RESULT"), unit_renamed("Null", "NULL")])).decl(&c);
    assert!(catch_decl.contains("enum CatchFieldTo of string"), "{catch_decl}");

    // RefetchableIdentifierInfo
    let refetch_decl = ty(def(
        "RefetchableIdentifierInfo",
        named(vec![
            rn(f("identifier_field", text()), "identifierField"),
            rn(f("identifier_query_variable_name", text()), "identifierQueryVariableName"),
        ]),
    ))
    .decl(&c);
    assert!(refetch_decl.contains("identifierField: string"), "{refetch_decl}");
    assert!(refetch_decl.contains("identifierQueryVariableName: string"), "{refetch_decl}");

    // ReaderPaginationMetadata
    let pagination_decl = ty(def(
        "ReaderPaginationMetadata",
        named(vec![
            typed(f("backward", nullable(text())), "{ +count: string, +cursor: string } | null"),
            typed(f("forward", nullable(text())), "{ +count: string, +cursor: string } | null"),
            typed(f("path", array(text())), "$ReadOnlyArray<string>"),
        ]),
    ))
    .decl(&c);
    assert!(
        pagination_decl.contains("backward: { +count: string, +cursor: string } | null"),
        "{pagination_decl}"
    );
    assert!(pagination_decl.contains("path: $ReadOnlyArray<string>"), "{pagination_decl}");
}
