use ltsc_workspace::winget_bootstrap::{deployment_step, file_uri_string, install, DeploymentStep};

#[test]
fn msix_uri_escapes_special_characters_and_preserves_unc_paths() {
    assert_eq!(
        file_uri_string(r"C:\Users\我 #1\WinGet.msixbundle").unwrap(),
        "file:///C:/Users/%E6%88%91%20%231/WinGet.msixbundle"
    );
    assert_eq!(file_uri_string(r"\\host\share\WinGet.appx").unwrap(), "file://host/share/WinGet.appx");
    assert!(file_uri_string("relative.appx").is_err());
    assert!(file_uri_string("C:relative.appx").is_err());
}

#[test]
fn refused_paths_are_named() {
    assert_eq!(
        file_uri_string(r"dir\file.appx"),
        Err("MSIX 路径不是 Windows 绝对路径：dir/file.appx".to_string())
    );
    assert_eq!(file_uri_string("D:/a+b=c").unwrap(), "file:///D:/a%2Bb%3Dc");
}

#[test]
fn install_request_lists_every_uri() {
    let request = install(r"C:\b\WinGet.msixbundle", &[r"C:\b\VCLibs.appx".into(), r"C:\b\UI.Xaml.appx".into()]).unwrap();
    assert_eq!(request.bundle_uri, "file:///C:/b/WinGet.msixbundle");
    assert_eq!(request.dependency_uris, ["file:///C:/b/VCLibs.appx", "file:///C:/b/UI.Xaml.appx"]);
    assert_eq!(
        install(r"C:\b\WinGet.msixbundle", &["ok.appx".into()]).unwrap_err(),
        "MSIX 路径不是 Windows 绝对路径：ok.appx"
    );
    assert!(install("bundle", &[]).is_err());
}

#[test]
fn deployment_steps() {
    assert_eq!(deployment_step(0, false, 1_000), DeploymentStep::Wait);
    assert_eq!(deployment_step(1, false, 1_000), DeploymentStep::CollectResult);
    assert_eq!(deployment_step(2, false, 1_000), DeploymentStep::Fail("WinGet 安装已被系统取消".into()));
    assert_eq!(deployment_step(3, false, 1_000), DeploymentStep::ReportErrorCode);
    assert_eq!(deployment_step(7, false, 1_000), DeploymentStep::Fail("MSIX 部署返回未知状态：7".into()));
    assert_eq!(deployment_step(-4, false, 1_000), DeploymentStep::Fail("MSIX 部署返回未知状态：-4".into()));
    assert_eq!(deployment_step(0, true, 1_000), DeploymentStep::Abort("WinGet 安装已取消".into()));
    assert_eq!(
        deployment_step(0, false, 600_000),
        DeploymentStep::Abort("WinGet 安装超过 10 分钟，已请求系统取消部署".into())
    );
    assert_eq!(deployment_step(1, false, 599_999), DeploymentStep::CollectResult);
}
