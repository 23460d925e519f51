use actix_web::web;
use actix_web::App;
use actix_web::HttpRequest;
use actix_web::HttpResponse;

async fn hello() -> HttpResponse {
    HttpResponse::Ok().body(ant_gateway::routes::hello_body())
}

async fn echo(req_body: String) -> HttpResponse {
    HttpResponse::Ok().body(ant_gateway::routes::echo_body(req_body))
}

async fn default_route(request: HttpRequest) -> HttpResponse {
    let uri = request.uri().to_string();
    HttpResponse::Ok().body(ant_gateway::routes::default_route_body(
        &uri,
        request.method().as_str(),
    ))
}

#[test]
fn end_to_end_gateway_routes() {
    actix_web::rt::System::new().block_on(async {
        let app = actix_web::test::init_service(
            App::new()
                .route("/", web::get().to(hello))
                .route("/echo", web::post().to(echo))
                .default_service(web::to(default_route)),
        )
        .await;

        let req = actix_web::test::TestRequest::get().uri("/").to_request();
        let resp = actix_web::test::call_service(&app, req).await;
        assert_eq!(resp.status(), 200);
        let body = actix_web::test::read_body(resp).await;
        assert_eq!(&body[..], b"Hello world!");

        let req = actix_web::test::TestRequest::post()
            .uri("/echo")
            .set_payload("abc")
            .to_request();
        let resp = actix_web::test::call_service(&app, req).await;
        assert_eq!(resp.status(), 200);
        let body = actix_web::test::read_body(resp).await;
        assert_eq!(&body[..], b"abc");

        let req = actix_web::test::TestRequest::get()
            .uri("/nonexistent/path")
            .to_request();
        let resp = actix_web::test::call_service(&app, req).await;
        assert_eq!(resp.status(), 200);
        let body = actix_web::test::read_body(resp).await;
        let text = std::str::from_utf8(&body).unwrap();
        assert!(text.contains("uri:"));
        assert!(text.contains("method:"));
        assert!(text.contains("/nonexistent/path"));
    });
}
